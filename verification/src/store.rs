//! The verifier's session store: who is registered, and which challenges are
//! waiting for their answer.

use crate::natural::Natural;
use vstd::hash_map::StringHashMap;
use vstd::prelude::*;

verus! {

/// Why a request was turned down.
#[derive(Debug, Clone, Copy, PartialEq, Eq, Structural)]
pub enum AuthError {
    /// The identifier or the challenge token is unknown.
    NotFound,
    /// The answer does not satisfy the verification equations.
    Unauthenticated,
}

/// What the verifier keeps of a registered identifier.
pub struct UserInfo {
    pub identifier: String,
    pub y1: Natural,
    pub y2: Natural,
}

/// A challenge that was issued and not yet answered.
pub struct PendingChallenge {
    pub identifier: String,
    pub r1: Natural,
    pub r2: Natural,
    pub c: Natural,
}

/// All that is needed to check an answer: the pending challenge together with
/// the public pair of the identifier it was issued to.
pub struct Resolved {
    pub identifier: String,
    pub r1: Natural,
    pub r2: Natural,
    pub y1: Natural,
    pub y2: Natural,
    pub c: Natural,
}

/// The public pair of a registered identifier, as numbers.
pub ghost struct Registration {
    pub y1: nat,
    pub y2: nat,
}

/// A pending challenge, as numbers.
pub ghost struct Pending {
    pub identifier: Seq<char>,
    pub r1: nat,
    pub r2: nat,
    pub c: nat,
}

impl View for UserInfo {
    type V = Registration;

    open spec fn view(&self) -> Registration {
        Registration { y1: self.y1@, y2: self.y2@ }
    }
}

impl View for PendingChallenge {
    type V = Pending;

    open spec fn view(&self) -> Pending {
        Pending { identifier: self.identifier@, r1: self.r1@, r2: self.r2@, c: self.c@ }
    }
}

impl Resolved {
    /// The record is the challenge `pending` joined with the pair `user`.
    pub open spec fn joins(&self, pending: Pending, user: Registration) -> bool {
        &&& self.identifier@ == pending.identifier
        &&& self.r1@ == pending.r1
        &&& self.r2@ == pending.r2
        &&& self.c@ == pending.c
        &&& self.y1@ == user.y1
        &&& self.y2@ == user.y2
    }
}

/// Registrations by identifier and pending challenges by token.
pub struct SessionStore {
    users: StringHashMap<UserInfo>,
    challenges: StringHashMap<PendingChallenge>,
}

impl SessionStore {
    /// The registered pairs, by identifier.
    pub closed spec fn users(&self) -> Map<Seq<char>, Registration> {
        Map::new(|id: Seq<char>| self.users@.contains_key(id), |id: Seq<char>| self.users@[id]@)
    }

    /// The pending challenges, by token.
    pub closed spec fn pending(&self) -> Map<Seq<char>, Pending> {
        Map::new(
            |token: Seq<char>| self.challenges@.contains_key(token),
            |token: Seq<char>| self.challenges@[token]@,
        )
    }

    /// Every pending challenge belongs to a registered identifier.
    pub open spec fn wf(&self) -> bool {
        forall|token: Seq<char>| #[trigger]
            self.pending().contains_key(token) ==> self.users().contains_key(
                self.pending()[token].identifier,
            )
    }

    /// A store with nobody registered and nothing pending.
    pub fn new() -> (r: SessionStore)
        ensures
            r.wf(),
            r.users() == Map::<Seq<char>, Registration>::empty(),
            r.pending() == Map::<Seq<char>, Pending>::empty(),
    {
        let r = SessionStore { users: StringHashMap::new(), challenges: StringHashMap::new() };
        proof {
            assert(r.users() =~= Map::<Seq<char>, Registration>::empty());
            assert(r.pending() =~= Map::<Seq<char>, Pending>::empty());
        }
        r
    }

    /// Whether the identifier is registered.
    pub fn is_registered(&self, identifier: &str) -> (r: bool)
        ensures
            r == self.users().contains_key(identifier@),
    {
        self.users.contains_key(identifier)
    }

    /// Whether a challenge is pending under the token.
    pub fn is_pending(&self, auth_id: &str) -> (r: bool)
        ensures
            r == self.pending().contains_key(auth_id@),
    {
        self.challenges.contains_key(auth_id)
    }

    /// Registers the identifier with its public pair. A second registration
    /// replaces the pair of the first; pending challenges stay.
    pub fn register(&mut self, identifier: String, y1: Natural, y2: Natural)
        requires
            old(self).wf(),
        ensures
            final(self).wf(),
            final(self).users() == old(self).users().insert(
                identifier@,
                Registration { y1: y1@, y2: y2@ },
            ),
            final(self).pending() == old(self).pending(),
    {
        let key = identifier.clone();
        self.users.insert(key, UserInfo { identifier, y1, y2 });
        proof {
            assert(final(self).users() =~= old(self).users().insert(
                identifier@,
                Registration { y1: y1@, y2: y2@ },
            ));
            assert(final(self).pending() =~= old(self).pending());
        }
    }

    /// Records a challenge for a registered identifier under the token
    /// `auth_id`, in place of any challenge that the token named before. An
    /// unregistered identifier is refused and nothing changes.
    pub fn begin_challenge(
        &mut self,
        identifier: String,
        r1: Natural,
        r2: Natural,
        c: Natural,
        auth_id: String,
    ) -> (res: Result<(), AuthError>)
        requires
            old(self).wf(),
        ensures
            final(self).wf(),
            final(self).users() == old(self).users(),
            res is Ok <==> old(self).users().contains_key(identifier@),
            res is Ok ==> final(self).pending() == old(self).pending().insert(
                auth_id@,
                Pending { identifier: identifier@, r1: r1@, r2: r2@, c: c@ },
            ),
            res is Err ==> res == Err::<(), AuthError>(AuthError::NotFound) && final(self).pending()
                == old(self).pending(),
    {
        if !self.users.contains_key(identifier.as_str()) {
            return Err(AuthError::NotFound);
        }
        self.challenges.insert(auth_id, PendingChallenge { identifier, r1, r2, c });
        proof {
            assert(final(self).pending() =~= old(self).pending().insert(
                auth_id@,
                Pending { identifier: identifier@, r1: r1@, r2: r2@, c: c@ },
            ));
        }
        Ok(())
    }

    /// Takes the challenge pending under `auth_id` out of the store and hands
    /// it back with the public pair that its identifier has now. The token is
    /// spent by this: a second call with it finds nothing.
    pub fn resolve(&mut self, auth_id: &str) -> (res: Result<Resolved, AuthError>)
        requires
            old(self).wf(),
        ensures
            final(self).wf(),
            final(self).users() == old(self).users(),
            final(self).pending() == old(self).pending().remove(auth_id@),
            res is Ok <==> old(self).pending().contains_key(auth_id@),
            res matches Ok(record) ==> record.joins(
                old(self).pending()[auth_id@],
                old(self).users()[old(self).pending()[auth_id@].identifier],
            ),
            res is Err ==> res == Err::<Resolved, AuthError>(AuthError::NotFound),
    {
        let record = match self.challenges.get(auth_id) {
            None => {
                proof {
                    assert(old(self).pending().remove(auth_id@) =~= old(self).pending());
                }
                return Err(AuthError::NotFound);
            },
            Some(pending) => {
                proof {
                    assert(self.pending().contains_key(auth_id@));
                }
                match self.users.get(pending.identifier.as_str()) {
                    None => unreached(),
                    Some(user) => Resolved {
                        identifier: pending.identifier.clone(),
                        r1: pending.r1.clone(),
                        r2: pending.r2.clone(),
                        y1: user.y1.clone(),
                        y2: user.y2.clone(),
                        c: pending.c.clone(),
                    },
                }
            },
        };
        self.challenges.remove(auth_id);
        proof {
            assert(final(self).pending() =~= old(self).pending().remove(auth_id@));
        }
        Ok(record)
    }
}

} // verus!
