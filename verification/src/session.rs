//! Binding a browser's identifier to a session, once and for good.

use vstd::prelude::*;
use crate::error::ServiceError;

verus! {

/// A server-side session. It starts unbound; the first identifier offered to
/// it is bound and stays for the session's lifetime.
pub struct Session {
    bicmid: Option<String>,
}

impl View for Session {
    type V = Option<Seq<char>>;

    /// The bound identifier, or `None` while the session is unbound.
    closed spec fn view(&self) -> Option<Seq<char>> {
        match self.bicmid {
            Some(b) => Some(b@),
            None => None,
        }
    }
}

/// The session that results from offering `candidate` to a session in state
/// `bound`: an unbound session takes the candidate, a bound one keeps what it has.
pub open spec fn bind(bound: Option<Seq<char>>, candidate: Seq<char>) -> Option<Seq<char>> {
    match bound {
        Some(b) => Some(b),
        None => Some(candidate),
    }
}

/// Whether `candidate` is accepted by a session in state `bound`: always by an
/// unbound session, and by a bound one only if it is the bound identifier.
pub open spec fn accepts(bound: Option<Seq<char>>, candidate: Seq<char>) -> bool {
    match bound {
        Some(b) => b == candidate,
        None => true,
    }
}

impl Session {
    /// A fresh, unbound session.
    pub fn new() -> (session: Session)
        ensures
            session@ is None,
    {
        Session { bicmid: None }
    }

    /// A session that is already bound to `bicmid`, as read back from a
    /// session store.
    pub fn bound_to(bicmid: String) -> (session: Session)
        ensures
            session@ == Some(bicmid@),
    {
        Session { bicmid: Some(bicmid) }
    }

    /// The bound identifier, if there is one.
    pub fn bicmid(&self) -> (bound: Option<&String>)
        ensures
            match bound {
                Some(b) => self@ == Some(b@),
                None => self@ is None,
            },
    {
        self.bicmid.as_ref()
    }
}

/// Offers `bicmid` to the session. An unbound session binds it and accepts; a
/// bound session is left as it is and accepts only its own identifier.
pub fn check_session(session: &mut Session, bicmid: String) -> (accepted: bool)
    ensures
        accepted == accepts(old(session)@, bicmid@),
        final(session)@ == bind(old(session)@, bicmid@),
{
    match &session.bicmid {
        Some(bound) => bicmid == *bound,
        None => {
            session.bicmid = Some(bicmid);
            true
        },
    }
}

/// The identifier that the session's rows are filed under.
pub fn get_bicmid_from_session(session: &Session) -> (owner: Result<String, ServiceError>)
    ensures
        match owner {
            Ok(b) => session@ == Some(b@),
            Err(e) => session@ is None && e == ServiceError::NoSession,
        },
{
    match &session.bicmid {
        Some(bound) => Ok(bound.clone()),
        None => Err(ServiceError::NoSession),
    }
}

/// An identifier offered to a fresh session is accepted and bound; from then
/// on the same identifier is accepted again, any other is refused, and the
/// binding does not change.
pub proof fn lemma_first_binding_is_final(first: Seq<char>, second: Seq<char>)
    ensures
        accepts(None, first),
        bind(None, first) == Some(first),
        accepts(bind(None, first), second) <==> second == first,
        bind(bind(None, first), second) == Some(first),
{
}

/// Once bound, a session's identifier survives every later offer.
pub proof fn lemma_bound_session_never_rebinds(bound: Seq<char>, candidate: Seq<char>)
    ensures
        bind(Some(bound), candidate) == Some(bound),
{
}

} // verus!
