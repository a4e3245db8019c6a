//! The authentication service: registration, challenge and verification.
//!
//! Each identifier is unregistered or registered, and a registered one may
//! have any number of challenges pending, each under a token of its own. A
//! challenge is answered once: whether the answer is right or wrong, its token
//! is spent.

use crate::engine::Proof;
use crate::group::power_mod;
use crate::natural::Natural;
use crate::parameters::{generator, modulus, order, second_exponent};
use crate::random::{is_token, random_alphanumeric, random_below};
use crate::store::{AuthError, Pending, Registration, Resolved, SessionStore};
use vstd::prelude::*;

verus! {

/// The length of challenge tokens and session identifiers.
pub const TOKEN_LENGTH: usize = 12;

/// The verifier: the group it works in and the store of its sessions.
pub struct AuthImpl {
    pub group: Proof,
    pub store: SessionStore,
}

/// Draws what a new challenge needs: a random token and a random challenge
/// below `q`.
pub fn draw_challenge(group: &Proof) -> (r: (String, Natural))
    requires
        group.q@ != 0,
    ensures
        is_token(r.0@, TOKEN_LENGTH as nat),
        r.1@ < group.q@,
{
    let c = random_below(&group.q);
    let auth_id = random_alphanumeric(TOKEN_LENGTH);
    (auth_id, c)
}

/// Checks the answer `s` against a resolved challenge and opens a session
/// under a random token exactly if the verification equations hold.
pub fn check_answer(group: &Proof, record: &Resolved, s: &Natural) -> (res: Result<
    String,
    AuthError,
>)
    requires
        group.p@ != 0,
    ensures
        res is Ok <==> group.accepts(record.r1@, record.r2@, record.y1@, record.y2@, record.c@, s@),
        res matches Ok(session_id) ==> is_token(session_id@, TOKEN_LENGTH as nat),
        res is Err ==> res == Err::<String, AuthError>(AuthError::Unauthenticated),
{
    let verified = group.verify(&record.r1, &record.r2, &record.y1, &record.y2, &record.c, s);
    if verified {
        Ok(random_alphanumeric(TOKEN_LENGTH))
    } else {
        Err(AuthError::Unauthenticated)
    }
}

impl AuthImpl {
    /// The group is usable and the store is consistent.
    pub open spec fn wf(&self) -> bool {
        self.group.usable() && self.store.wf()
    }

    /// A verifier for the given group with an empty store, or `None` where
    /// `p` or `q` is zero and no arithmetic is possible.
    pub fn new(group: Proof) -> (r: Option<AuthImpl>)
        ensures
            r is Some <==> group.usable(),
            r matches Some(service) ==> service.wf() && service.group == group
                && service.store.users() == Map::<Seq<char>, Registration>::empty()
                && service.store.pending() == Map::<Seq<char>, Pending>::empty(),
    {
        if group.p.is_zero() || group.q.is_zero() {
            None
        } else {
            Some(AuthImpl { group, store: SessionStore::new() })
        }
    }

    /// Registers `identifier` with the public pair `(y1, y2)`. This always
    /// succeeds; a later registration replaces an earlier one.
    pub fn register(&mut self, identifier: String, y1: Natural, y2: Natural)
        requires
            old(self).wf(),
        ensures
            final(self).wf(),
            final(self).group == old(self).group,
            final(self).store.users() == old(self).store.users().insert(
                identifier@,
                Registration { y1: y1@, y2: y2@ },
            ),
            final(self).store.pending() == old(self).store.pending(),
    {
        self.store.register(identifier, y1, y2);
    }

    /// Issues a challenge to a registered identifier that has committed to
    /// `(r1, r2)`: a random token and a random `c` below `q`, recorded as
    /// pending under that token. An unregistered identifier is refused and nothing changes.
    pub fn create_authentication_challenge(
        &mut self,
        identifier: String,
        r1: Natural,
        r2: Natural,
    ) -> (res: Result<(String, Natural), AuthError>)
        requires
            old(self).wf(),
        ensures
            final(self).wf(),
            final(self).group == old(self).group,
            final(self).store.users() == old(self).store.users(),
            res is Ok <==> old(self).store.users().contains_key(identifier@),
            res matches Ok(issued) ==> is_token(issued.0@, TOKEN_LENGTH as nat) && issued.1@
                < old(self).group.q@ && final(self).store.pending() == old(
                self,
            ).store.pending().insert(
                issued.0@,
                Pending { identifier: identifier@, r1: r1@, r2: r2@, c: issued.1@ },
            ),
            res is Err ==> res == Err::<(String, Natural), AuthError>(AuthError::NotFound)
                && final(self).store.pending() == old(self).store.pending(),
    {
        if !self.store.is_registered(identifier.as_str()) {
            return Err(AuthError::NotFound);
        }
        let (auth_id, c) = draw_challenge(&self.group);
        let recorded = self.store.begin_challenge(
            identifier,
            r1,
            r2,
            c.clone(),
            auth_id.clone(),
        );
        match recorded {
            Ok(()) => Ok((auth_id, c)),
            Err(e) => Err(e),
        }
    }

    /// Checks the answer `s` to the challenge pending under `auth_id`, against
    /// the public pair that the challenged identifier has now. The token is
    /// spent whatever the outcome. A session token comes back exactly if the
    /// verification equations hold.
    pub fn verify_authentication(&mut self, auth_id: &str, s: &Natural) -> (res: Result<
        String,
        AuthError,
    >)
        requires
            old(self).wf(),
        ensures
            final(self).wf(),
            final(self).group == old(self).group,
            final(self).store.users() == old(self).store.users(),
            final(self).store.pending() == old(self).store.pending().remove(auth_id@),
            !old(self).store.pending().contains_key(auth_id@) ==> res == Err::<String, AuthError>(
                AuthError::NotFound,
            ),
            old(self).store.pending().contains_key(auth_id@) ==> {
                let pending = old(self).store.pending()[auth_id@];
                let user = old(self).store.users()[pending.identifier];
                let accepted = old(self).group.accepts(
                    pending.r1,
                    pending.r2,
                    user.y1,
                    user.y2,
                    pending.c,
                    s@,
                );
                &&& res is Ok <==> accepted
                &&& res matches Ok(session_id) ==> is_token(session_id@, TOKEN_LENGTH as nat)
                &&& res is Err ==> res == Err::<String, AuthError>(AuthError::Unauthenticated)
            },
    {
        match self.store.resolve(auth_id) {
            Err(e) => Err(e),
            Ok(record) => check_answer(&self.group, &record, s),
        }
    }
}

/// The verifier for the built-in group, with an empty store.
impl Default for AuthImpl {
    fn default() -> (r: AuthImpl)
        ensures
            r.wf(),
            r.group.p@ == modulus(),
            r.group.q@ == order(),
            r.group.alpha@ == generator(),
            r.group.beta@ == power_mod(generator(), second_exponent(), modulus()),
            r.store.users() == Map::<Seq<char>, Registration>::empty(),
            r.store.pending() == Map::<Seq<char>, Pending>::empty(),
    {
        let (p, q, alpha, beta) = Proof::get_constants();
        AuthImpl { group: Proof::new(p, q, alpha, beta), store: SessionStore::new() }
    }
}

} // verus!
