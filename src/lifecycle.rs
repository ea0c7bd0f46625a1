//! Facts about whole runs of the negotiation steps, stated over the
//! registry's view and proved from the steps' own contracts.
use vstd::prelude::*;

use crate::screencast::{closed_view, close_returns, start_succeeds, started_view, start_stops, BackendError};
use crate::session::SessionData;

verus! {

/// The sessions after successful `create_session` calls with each handle of
/// `hs`, in order, starting from `m`.
pub open spec fn created<H>(m: Map<Seq<char>, SessionData<H>>, hs: Seq<Seq<char>>) -> Map<
    Seq<char>,
    SessionData<H>,
>
    decreases hs.len(),
{
    if hs.len() == 0 {
        m
    } else {
        created(m, hs.drop_last()).insert(hs.last(), SessionData::<H>::initial())
    }
}

/// Creating sessions under distinct, unregistered handles: every call in the
/// sequence finds its handle free (so it succeeds), and afterwards each new
/// session is retrievable, not closed and without a stop handle, while every
/// other session is left as it was.
pub proof fn lemma_created_sessions_independent<H>(
    m: Map<Seq<char>, SessionData<H>>,
    hs: Seq<Seq<char>>,
)
    requires
        forall|i: int, j: int| 0 <= i < j < hs.len() ==> hs[i] != hs[j],
        forall|i: int| 0 <= i < hs.len() ==> !m.contains_key(#[trigger] hs[i]),
    ensures
        forall|i: int| 0 <= i < hs.len() ==> !created(m, hs.take(i)).contains_key(#[trigger] hs[i]),
        forall|i: int|
            0 <= i < hs.len() ==> created(m, hs).contains_key(#[trigger] hs[i]) && created(m, hs)[hs[i]]
                == SessionData::<H>::initial(),
        forall|i: int|
            0 <= i < hs.len() ==> !(#[trigger] created(m, hs)[hs[i]]).closed && created(
                m,
                hs,
            )[hs[i]].stop_handle is None,
        forall|k: Seq<char>|
            !hs.contains(k) ==> (#[trigger] created(m, hs).contains_key(k) == m.contains_key(k))
                && (m.contains_key(k) ==> created(m, hs)[k] == m[k]),
    decreases hs.len(),
{
    if hs.len() > 0 {
        let init = hs.drop_last();
        lemma_created_sessions_independent(m, init);
        assert forall|i: int| 0 <= i < hs.len() implies !created(m, hs.take(i)).contains_key(
            #[trigger] hs[i],
        ) by {
            assert(hs.take(i) =~= init.take(i)) by {
                if i < init.len() {
                } else {
                    assert(hs.take(i) =~= init);
                    assert(init.take(i) =~= init);
                }
            }
            if i < init.len() {
                assert(init[i] == hs[i]);
            } else {
                assert(!init.contains(hs[i])) by {
                    if init.contains(hs[i]) {
                        let j = choose|j: int| 0 <= j < init.len() && init[j] == hs[i];
                        assert(hs[j] == hs[i]);
                    }
                }
            }
        }
        assert forall|i: int| 0 <= i < hs.len() implies created(m, hs).contains_key(#[trigger] hs[i])
            && created(m, hs)[hs[i]] == SessionData::<H>::initial() by {
            if i < init.len() {
                assert(init[i] == hs[i]);
            }
        }
        assert forall|i: int| 0 <= i < hs.len() implies !(#[trigger] created(m, hs)[hs[i]]).closed
            && created(m, hs)[hs[i]].stop_handle is None by {
            if i < init.len() {
                assert(init[i] == hs[i]);
            }
        }
        assert forall|k: Seq<char>| !hs.contains(k) implies (#[trigger] created(m, hs).contains_key(k)
            == m.contains_key(k)) && (m.contains_key(k) ==> created(m, hs)[k] == m[k]) by {
            assert(k != hs.last()) by {
                assert(hs[hs.len() - 1] == hs.last());
            }
            assert(!init.contains(k)) by {
                if init.contains(k) {
                    let j = choose|j: int| 0 <= j < init.len() && init[j] == k;
                    assert(hs[j] == k);
                }
            }
        }
    } else {
        assert(hs.take(0) =~= hs);
    }
}

/// Closing a session twice leaves the same sessions as closing it once; the
/// second close hands back no stop handle, so a stream is signalled at most
/// once. A registered session ends closed and without a stop handle.
pub proof fn lemma_close_session_idempotent<H>(m: Map<Seq<char>, SessionData<H>>, h: Seq<char>)
    ensures
        closed_view(closed_view(m, h), h) == closed_view(m, h),
        close_returns(closed_view(m, h), h) is None,
        m.contains_key(h) ==> closed_view(m, h)[h].closed && closed_view(m, h)[h].stop_handle is None,
{
    if m.contains_key(h) {
        assert(closed_view(closed_view(m, h), h) =~= closed_view(m, h));
    }
}

/// A start whose backend produced endpoint `node` with handle `stop`, on a
/// registered, well-formed session: it succeeds exactly when the session was
/// not closed by the time the result is reconciled.
/// If a close came first, the start fails, hands `stop` back to be signalled,
/// and leaves the session closed with no handle, so no later close signals it
/// again. Otherwise `stop` is stored, and the first later close hands it back
/// once.
pub proof fn lemma_start_close_race<H>(
    m: Map<Seq<char>, SessionData<H>>,
    h: Seq<char>,
    node: u32,
    stop: H,
)
    requires
        m.contains_key(h),
        m[h].wf(),
    ensures
        start_succeeds(m, h, Ok::<(Option<u32>, H), BackendError>((Some(node), stop))) <==> !m[h].closed,
        ({
            let b = Ok::<(Option<u32>, H), BackendError>((Some(node), stop));
            let m1 = closed_view(m, h);
            &&& !start_succeeds(m1, h, b)
            &&& start_stops(m1, h, b) == Some(stop)
            &&& started_view(m1, h, b) == m1
            &&& close_returns(started_view(m1, h, b), h) is None
        }),
        !m[h].closed ==> ({
            let b = Ok::<(Option<u32>, H), BackendError>((Some(node), stop));
            let m2 = started_view(m, h, b);
            &&& m2[h].stop_handle == Some(stop)
            &&& close_returns(m2, h) == Some(stop)
            &&& close_returns(closed_view(m2, h), h) is None
        }),
{
}

/// A start on a handle that is not registered fails, registers nothing, and
/// changes no session, whatever the backend answered.
pub proof fn lemma_start_unknown_unchanged<H>(
    m: Map<Seq<char>, SessionData<H>>,
    h: Seq<char>,
    backend: Result<(Option<u32>, H), BackendError>,
)
    requires
        !m.contains_key(h),
    ensures
        !start_succeeds(m, h, backend),
        started_view(m, h, backend) == m,
{
}

} // verus!
