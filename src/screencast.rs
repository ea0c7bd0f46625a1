//! The screen-cast coordinator: a registry of sessions keyed by their handle,
//! and the negotiation steps (create, select sources, start, close).
use vstd::prelude::*;

use crate::session::{
    SessionData, SelectSourcesOptions, SourceSelection, PORTAL_RESPONSE_SUCCESS,
    PORTAL_RESPONSE_OTHER, SOURCE_TYPE_MONITOR, CURSOR_MODE_HIDDEN,
};

verus! {

/// The interface version reported by the `version` property.
pub const INTERFACE_VERSION: u32 = 4;

/// The character of one decimal digit.
pub open spec fn digit_char(d: nat) -> char {
    seq!['0', '1', '2', '3', '4', '5', '6', '7', '8', '9'][d as int]
}

/// The decimal digits of `n`, most significant first, without leading zeros.
pub open spec fn decimal(n: nat) -> Seq<char>
    decreases n,
{
    if n < 10 {
        seq![digit_char(n)]
    } else {
        decimal(n / 10).push(digit_char(n % 10))
    }
}

/// Relies on the `Display` impl of `usize`, through `format!`: plain decimal
/// digits, no sign and no padding.
#[verifier::external_body]
fn decimal_string(n: usize) -> (r: String)
    ensures
        r@ == decimal(n as nat),
{
    format!("{}", n)
}

/// Why `create_session` refused to register a session.
#[derive(PartialEq, Eq, Structural, Clone, Copy, Debug)]
pub enum SessionError {
    /// A session is already registered under the handle.
    DuplicateHandle,
}

/// The reply to `create_session`.
pub struct CreateSessionResult {
    /// An opaque identifier minted for the session.
    pub session_id: String,
}

/// The reply to `start`.
pub struct StartResult {
    /// The endpoint id of each stream handed to the client.
    pub streams: Vec<u32>,
    /// The persist mode granted, if any.
    pub persist_mode: Option<u32>,
}

/// The stream backend could not produce a stream.
#[derive(PartialEq, Eq, Structural, Clone, Copy, Debug)]
pub struct BackendError;

/// What `finish_start` decided: the status and reply for the caller of
/// `start`, and a stop handle that the caller must now signal, if any.
pub struct StartOutcome<H> {
    pub status: u32,
    pub result: StartResult,
    pub stop: Option<H>,
}

/// The registry of sessions and the service built on it. `H` is the stop
/// handle of a running stream.
pub struct ScreenCast<H> {
    sessions: Vec<(String, SessionData<H>)>,
}

/// The sessions after closing the one under `h`; unchanged when `h` is unknown.
pub open spec fn closed_view<H>(m: Map<Seq<char>, SessionData<H>>, h: Seq<char>) -> Map<
    Seq<char>,
    SessionData<H>,
> {
    if m.contains_key(h) {
        m.insert(h, m[h].after_close())
    } else {
        m
    }
}

/// The stop handle that closing the session under `h` hands back.
pub open spec fn close_returns<H>(m: Map<Seq<char>, SessionData<H>>, h: Seq<char>) -> Option<H> {
    if m.contains_key(h) {
        m[h].stop_handle
    } else {
        None
    }
}

/// Whether a finished backend start-up under `h` is reported as a success:
/// the backend produced an endpoint and the session is known and not closed.
pub open spec fn start_succeeds<H>(
    m: Map<Seq<char>, SessionData<H>>,
    h: Seq<char>,
    backend: Result<(Option<u32>, H), BackendError>,
) -> bool {
    match backend {
        Ok((Some(_), _)) => m.contains_key(h) && !m[h].closed,
        _ => false,
    }
}

/// The sessions after a finished backend start-up under `h` was reconciled.
/// Only a success changes anything: the new stop handle is stored.
pub open spec fn started_view<H>(
    m: Map<Seq<char>, SessionData<H>>,
    h: Seq<char>,
    backend: Result<(Option<u32>, H), BackendError>,
) -> Map<Seq<char>, SessionData<H>> {
    match backend {
        Ok((_, stop)) => if start_succeeds(m, h, backend) {
            m.insert(h, SessionData { stop_handle: Some(stop), ..m[h] })
        } else {
            m
        },
        Err(_) => m,
    }
}

/// The stop handle that reconciling a backend start-up hands back to be
/// signalled: on success the one it replaces, else the new one.
pub open spec fn start_stops<H>(
    m: Map<Seq<char>, SessionData<H>>,
    h: Seq<char>,
    backend: Result<(Option<u32>, H), BackendError>,
) -> Option<H> {
    match backend {
        Ok((_, stop)) => if start_succeeds(m, h, backend) {
            m[h].stop_handle
        } else {
            Some(stop)
        },
        Err(_) => None,
    }
}

impl<H> ScreenCast<H> {
    /// Handles are distinct, and every session is well formed.
    pub closed spec fn wf(&self) -> bool {
        &&& forall|i: int, j: int|
            0 <= i < j < self.sessions@.len() ==> self.sessions@[i].0@ != self.sessions@[j].0@
        &&& forall|i: int| 0 <= i < self.sessions@.len() ==> (#[trigger] self.sessions@[i]).1.wf()
    }

    /// How many sessions were ever registered.
    pub closed spec fn num_sessions(&self) -> nat {
        self.sessions@.len()
    }

    spec fn has_key_at(&self, k: Seq<char>, i: int) -> bool {
        0 <= i < self.sessions@.len() && self.sessions@[i].0@ == k
    }

    /// The sessions, by handle.
    pub closed spec fn view(&self) -> Map<Seq<char>, SessionData<H>> {
        Map::new(
            |k: Seq<char>| exists|i: int| self.has_key_at(k, i),
            |k: Seq<char>| self.sessions@[choose|i: int| self.has_key_at(k, i)].1,
        )
    }

    proof fn lemma_view_at(&self, i: int)
        requires
            self.wf(),
            0 <= i < self.sessions@.len(),
        ensures
            self@.contains_key(self.sessions@[i].0@),
            self@[self.sessions@[i].0@] == self.sessions@[i].1,
    {
        let k = self.sessions@[i].0@;
        assert(self.has_key_at(k, i));
        let j = choose|j: int| self.has_key_at(k, j);
        assert(j == i) by {
            if j < i {
                assert(self.sessions@[j].0@ != self.sessions@[i].0@);
            } else if i < j {
                assert(self.sessions@[i].0@ != self.sessions@[j].0@);
            }
        }
    }

    proof fn lemma_view_wf(&self)
        requires
            self.wf(),
        ensures
            forall|k: Seq<char>| #[trigger] self@.contains_key(k) ==> self@[k].wf(),
    {
        assert forall|k: Seq<char>| #[trigger] self@.contains_key(k) implies self@[k].wf() by {
            let i = choose|i: int| self.has_key_at(k, i);
            self.lemma_view_at(i);
        }
    }

    /// The index of the session under `h`, if it is registered.
    fn find(&self, h: &String) -> (r: Option<usize>)
        requires
            self.wf(),
        ensures
            match r {
                Some(i) => i < self.sessions@.len() && self.sessions@[i as int].0@ == h@,
                None => !self@.contains_key(h@),
            },
    {
        let mut i: usize = 0;
        while i < self.sessions.len()
            invariant
                i <= self.sessions@.len(),
                forall|j: int| 0 <= j < i ==> self.sessions@[j].0@ != h@,
            decreases self.sessions@.len() - i,
        {
            if self.sessions[i].0 == *h {
                return Some(i);
            }
            i = i + 1;
        }
        None
    }

    proof fn lemma_view_replace(a: &Self, b: &Self, i: int, d: SessionData<H>)
        requires
            a.wf(),
            d.wf(),
            0 <= i < a.sessions@.len(),
            b.sessions@ == a.sessions@.update(i, (a.sessions@[i].0, d)),
        ensures
            b.wf(),
            b@ == a@.insert(a.sessions@[i].0@, d),
            b.num_sessions() == a.num_sessions(),
    {
        let k = a.sessions@[i].0@;
        assert forall|j: int| 0 <= j < b.sessions@.len() implies (#[trigger] b.sessions@[j]).1.wf() by {
            if j != i {
                assert(b.sessions@[j] == a.sessions@[j]);
                assert(a.sessions@[j].1.wf());
            }
        }
        assert(b.wf());
        assert forall|g: Seq<char>| #[trigger] b@.contains_key(g) == a@.insert(k, d).contains_key(g) by {
            if b@.contains_key(g) {
                let j = choose|j: int| b.has_key_at(g, j);
                assert(a.has_key_at(g, j));
            }
            if a@.contains_key(g) {
                let j = choose|j: int| a.has_key_at(g, j);
                assert(b.has_key_at(g, j));
            }
            if g == k {
                assert(b.has_key_at(g, i));
            }
        }
        assert forall|g: Seq<char>| #[trigger] b@.contains_key(g) implies b@[g] == a@.insert(k, d)[g] by {
            let j = choose|j: int| b.has_key_at(g, j);
            b.lemma_view_at(j);
            if j != i {
                a.lemma_view_at(j);
            }
        }
        assert(b@ =~= a@.insert(k, d));
    }

    proof fn lemma_view_push(a: &Self, b: &Self, k: String, d: SessionData<H>)
        requires
            a.wf(),
            d.wf(),
            !a@.contains_key(k@),
            b.sessions@ == a.sessions@.push((k, d)),
        ensures
            b.wf(),
            b@ == a@.insert(k@, d),
            b.num_sessions() == a.num_sessions() + 1,
    {
        let n = a.sessions@.len() as int;
        assert forall|i: int, j: int|
            0 <= i < j < b.sessions@.len() implies b.sessions@[i].0@ != b.sessions@[j].0@ by {
            if j == n {
                assert(a.has_key_at(a.sessions@[i].0@, i));
            }
        }
        assert forall|j: int| 0 <= j < b.sessions@.len() implies (#[trigger] b.sessions@[j]).1.wf() by {
            if j < n {
                assert(b.sessions@[j] == a.sessions@[j]);
                assert(a.sessions@[j].1.wf());
            }
        }
        assert(b.wf());
        assert forall|g: Seq<char>| #[trigger] b@.contains_key(g) == a@.insert(k@, d).contains_key(g) by {
            if b@.contains_key(g) {
                let j = choose|j: int| b.has_key_at(g, j);
                if j < n {
                    assert(a.has_key_at(g, j));
                }
            }
            if a@.contains_key(g) {
                let j = choose|j: int| a.has_key_at(g, j);
                assert(b.has_key_at(g, j));
            }
            if g == k@ {
                assert(b.has_key_at(g, n));
            }
        }
        assert forall|g: Seq<char>| #[trigger] b@.contains_key(g) implies b@[g] == a@.insert(k@, d)[g] by {
            let j = choose|j: int| b.has_key_at(g, j);
            b.lemma_view_at(j);
            if j < n {
                a.lemma_view_at(j);
            }
        }
        assert(b@ =~= a@.insert(k@, d));
    }

    /// An empty registry.
    pub fn new() -> (r: ScreenCast<H>)
        ensures
            r.wf(),
            r@ == Map::<Seq<char>, SessionData<H>>::empty(),
            r.num_sessions() == 0,
    {
        let r = ScreenCast { sessions: Vec::new() };
        assert(r@ =~= Map::<Seq<char>, SessionData<H>>::empty());
        r
    }

    /// The state of the session under `h`, if it is registered.
    pub fn lookup(&self, h: &String) -> (r: Option<&SessionData<H>>)
        requires
            self.wf(),
        ensures
            r is Some <==> self@.contains_key(h@),
            r matches Some(d) ==> *d == self@[h@],
    {
        match self.find(h) {
            Some(i) => {
                proof {
                    self.lemma_view_at(i as int);
                }
                Some(&self.sessions[i].1)
            },
            None => None,
        }
    }

    /// How many sessions were ever registered; closed ones stay registered.
    pub fn len(&self) -> (n: usize)
        ensures
            n == self.num_sessions(),
    {
        self.sessions.len()
    }

    /// Registers a fresh session under `session_handle` and mints its
    /// identifier. A handle that is already registered is refused and
    /// nothing changes.
    pub fn create_session(&mut self, session_handle: String) -> (r: Result<
        (u32, CreateSessionResult),
        SessionError,
    >)
        requires
            old(self).wf(),
        ensures
            final(self).wf(),
            old(self)@.contains_key(session_handle@) ==> r == Err::<
                (u32, CreateSessionResult),
                SessionError,
            >(SessionError::DuplicateHandle) && final(self)@ == old(self)@
                && final(self).num_sessions() == old(self).num_sessions(),
            !old(self)@.contains_key(session_handle@) ==> r is Ok,
            !old(self)@.contains_key(session_handle@) ==> final(self)@ == old(self)@.insert(
                session_handle@,
                SessionData::<H>::initial(),
            ),
            !old(self)@.contains_key(session_handle@) ==> final(self).num_sessions()
                == old(self).num_sessions() + 1,
            r matches Ok((status, res)) ==> status == PORTAL_RESPONSE_SUCCESS
                && res.session_id@ == decimal(old(self).num_sessions()),
    {
        match self.find(&session_handle) {
            Some(i) => {
                proof {
                    self.lemma_view_at(i as int);
                }
                Err(SessionError::DuplicateHandle)
            },
            None => {
                let session_id = decimal_string(self.sessions.len());
                let d = SessionData::new();
                let ghost pre = *old(self);
                self.sessions.push((session_handle, d));
                proof {
                    Self::lemma_view_push(&pre, self, session_handle, d);
                }
                Ok((PORTAL_RESPONSE_SUCCESS, CreateSessionResult { session_id }))
            },
        }
    }

    /// Closes the session under `h`, if it is registered, and hands back the
    /// stop handle it held: the caller signals it. Safe to call at any time,
    /// any number of times.
    pub fn close_session(&mut self, h: &String) -> (stop: Option<H>)
        requires
            old(self).wf(),
        ensures
            final(self).wf(),
            final(self)@ == closed_view(old(self)@, h@),
            stop == close_returns(old(self)@, h@),
            final(self).num_sessions() == old(self).num_sessions(),
    {
        match self.find(h) {
            None => None,
            Some(i) => {
                let ghost pre = *old(self);
                let (k, mut d) = self.sessions.remove(i);
                let stop = d.close();
                self.sessions.insert(i, (k, d));
                proof {
                    pre.lemma_view_at(i as int);
                    assert(self.sessions@ =~= pre.sessions@.update(i as int, (pre.sessions@[i as int].0, d)));
                    Self::lemma_view_replace(&pre, self, i as int, d);
                }
                stop
            },
        }
    }

    /// Records the source constraints of a session that is neither started
    /// nor closed; the last selection wins. Any other session, or an unknown
    /// handle, is refused with the "other" status and nothing changes.
    pub fn select_sources(&mut self, h: &String, options: &SelectSourcesOptions) -> (status: u32)
        requires
            old(self).wf(),
        ensures
            final(self).wf(),
            final(self).num_sessions() == old(self).num_sessions(),
            old(self)@.contains_key(h@) && old(self)@[h@].is_created() ==> status
                == PORTAL_RESPONSE_SUCCESS && final(self)@ == old(self)@.insert(
                h@,
                SessionData { selection: SourceSelection::of_options(*options), ..old(self)@[h@] },
            ),
            !(old(self)@.contains_key(h@) && old(self)@[h@].is_created()) ==> status
                == PORTAL_RESPONSE_OTHER && final(self)@ == old(self)@,
    {
        match self.find(h) {
            None => PORTAL_RESPONSE_OTHER,
            Some(i) => {
                proof {
                    self.lemma_view_at(i as int);
                }
                if self.sessions[i].1.closed || self.sessions[i].1.stop_handle.is_some() {
                    return PORTAL_RESPONSE_OTHER;
                }
                let ghost pre = *old(self);
                let (k, mut d) = self.sessions.remove(i);
                d.selection = SourceSelection::from_options(options);
                self.sessions.insert(i, (k, d));
                proof {
                    assert(self.sessions@ =~= pre.sessions@.update(i as int, (pre.sessions@[i as int].0, d)));
                    Self::lemma_view_replace(&pre, self, i as int, d);
                }
                PORTAL_RESPONSE_SUCCESS
            },
        }
    }

    /// The first half of `start`, before the stream backend runs: the
    /// selection to start the backend with, or, for an unknown handle, the
    /// failure reply. Nothing is registered or changed.
    pub fn begin_start(&self, h: &String) -> (r: Result<SourceSelection, (u32, StartResult)>)
        requires
            self.wf(),
        ensures
            self@.contains_key(h@) ==> r == Ok::<SourceSelection, (u32, StartResult)>(
                self@[h@].selection,
            ),
            !self@.contains_key(h@) ==> (r matches Err((status, res)) && status
                == PORTAL_RESPONSE_OTHER && res.streams@.len() == 0 && res.persist_mode is None),
    {
        match self.find(h) {
            Some(i) => {
                proof {
                    self.lemma_view_at(i as int);
                }
                Ok(self.sessions[i].1.selection)
            },
            None => Err((PORTAL_RESPONSE_OTHER, StartResult { streams: Vec::new(), persist_mode: None })),
        }
    }

    /// The second half of `start`, once the stream backend has answered:
    /// reconciles its result with the session in one step, so a close either
    /// came before and is seen here, or comes after and finds the stored
    /// handle. A session closed meanwhile makes the start fail, and the new
    /// stream's stop handle is handed back to be signalled.
    pub fn finish_start(
        &mut self,
        h: &String,
        backend: Result<(Option<u32>, H), BackendError>,
    ) -> (r: StartOutcome<H>)
        requires
            old(self).wf(),
        ensures
            final(self).wf(),
            final(self).num_sessions() == old(self).num_sessions(),
            final(self)@ == started_view(old(self)@, h@, backend),
            r.stop == start_stops(old(self)@, h@, backend),
            r.result.persist_mode is None,
            start_succeeds(old(self)@, h@, backend) ==> r.status == PORTAL_RESPONSE_SUCCESS
                && (backend matches Ok((Some(node), _)) && r.result.streams@ == seq![node]),
            !start_succeeds(old(self)@, h@, backend) ==> r.status == PORTAL_RESPONSE_OTHER
                && r.result.streams@.len() == 0,
    {
        let failed = StartResult { streams: Vec::new(), persist_mode: None };
        match backend {
            Err(_) => StartOutcome { status: PORTAL_RESPONSE_OTHER, result: failed, stop: None },
            Ok((node, stop)) => {
                let node = match node {
                    Some(n) => n,
                    None => {
                        return StartOutcome {
                            status: PORTAL_RESPONSE_OTHER,
                            result: failed,
                            stop: Some(stop),
                        };
                    },
                };
                let i = match self.find(h) {
                    Some(i) => i,
                    None => {
                        return StartOutcome {
                            status: PORTAL_RESPONSE_OTHER,
                            result: failed,
                            stop: Some(stop),
                        };
                    },
                };
                proof {
                    self.lemma_view_at(i as int);
                }
                let ghost pre = *old(self);
                let (k, mut d) = self.sessions.remove(i);
                let previous = d.stop_handle.take();
                d.stop_handle = Some(stop);
                if d.closed {
                    let again = d.close();
                    self.sessions.insert(i, (k, d));
                    proof {
                        assert(pre.sessions@[i as int].1.wf());
                        assert(self.sessions@ =~= pre.sessions@.update(i as int, (pre.sessions@[i as int].0, d)));
                        Self::lemma_view_replace(&pre, self, i as int, d);
                        assert(self@ =~= pre@);
                    }
                    StartOutcome { status: PORTAL_RESPONSE_OTHER, result: failed, stop: again }
                } else {
                    self.sessions.insert(i, (k, d));
                    proof {
                        assert(self.sessions@ =~= pre.sessions@.update(i as int, (pre.sessions@[i as int].0, d)));
                        Self::lemma_view_replace(&pre, self, i as int, d);
                    }
                    let mut streams: Vec<u32> = Vec::new();
                    streams.push(node);
                    proof {
                        assert(streams@ =~= seq![node]);
                    }
                    StartOutcome {
                        status: PORTAL_RESPONSE_SUCCESS,
                        result: StartResult { streams, persist_mode: None },
                        stop: previous,
                    }
                }
            },
        }
    }

    /// The source types this service can capture.
    pub fn available_source_types(&self) -> (r: u32)
        ensures
            r == SOURCE_TYPE_MONITOR,
    {
        SOURCE_TYPE_MONITOR
    }

    /// The cursor modes this service supports.
    pub fn available_cursor_modes(&self) -> (r: u32)
        ensures
            r == CURSOR_MODE_HIDDEN,
    {
        CURSOR_MODE_HIDDEN
    }

    /// The interface version.
    pub fn version(&self) -> (r: u32)
        ensures
            r == INTERFACE_VERSION,
    {
        INTERFACE_VERSION
    }
}

impl<H> Default for ScreenCast<H> {
    fn default() -> (r: ScreenCast<H>)
        ensures
            r.wf(),
            r@ == Map::<Seq<char>, SessionData<H>>::empty(),
    {
        ScreenCast::new()
    }
}

} // verus!
