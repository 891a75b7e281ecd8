//! The verifier's side: the identity store, the challenge registry and the
//! three operations Register, CreateAuthenticationChallenge and
//! VerifyAuthentication.
//!
//! Each operation changes at most one of the two maps, in a single insert.
//! A concurrent host guards the service with locks; where both maps are read
//! the registry is consulted before the store.
use crate::bignum::be_value;
use crate::zkp::{accepts, generate_identifier, is_id_code, random_scalar, verify, Group};
use vstd::hash_map::StringHashMap;
use vstd::prelude::*;

verus! {

/// Length of the opaque identifiers handed out (auth_id, session_id).
pub const ID_LEN: usize = 12;

/// A registered identity: the public values `y1 = alpha ^ x mod p` and
/// `y2 = beta ^ x mod p` of the user's secret `x`.
pub struct UserInfo {
    pub user_name: String,
    pub y1: Vec<u8>,
    pub y2: Vec<u8>,
}

/// One login attempt awaiting verification: the prover's commitments and the
/// challenge drawn for them.
pub struct ChallengeSession {
    pub user_name: String,
    pub r1: Vec<u8>,
    pub r2: Vec<u8>,
    pub c: Vec<u8>,
}

/// Why an operation failed; each carries the key that was asked for.
#[derive(Debug)]
pub enum AuthError {
    /// Unknown user at challenge time, or unknown auth_id at verification.
    NotFound(String),
    /// The response does not satisfy the verification equations.
    PermissionDenied(String),
    /// A challenge refers to a user that is no longer registered.
    InternalConsistency(String),
}

impl ChallengeSession {
    /// This session records `user`'s attempt with commitments `r1`, `r2`
    /// and challenge `c`.
    pub open spec fn holds(&self, user: Seq<char>, r1: Seq<u8>, r2: Seq<u8>, c: Seq<u8>) -> bool {
        self.user_name@ == user && self.r1@ == r1 && self.r2@ == r2 && self.c@ == c
    }
}

/// The verifier: group parameters, users by name, challenges by auth_id.
pub struct AuthImpl {
    pub group: Group,
    pub user_info: StringHashMap<UserInfo>,
    pub auth_id_to_user_hashmap: StringHashMap<ChallengeSession>,
}

/// What a verification of `s` against the challenge `auth_id` yields.
#[derive(Debug)]
pub enum Outcome {
    Accepted,
    UnknownChallenge,
    UnknownUser,
    Rejected,
}

impl AuthImpl {
    pub open spec fn wf(&self) -> bool {
        self.group.wf()
    }

    /// The outcome of verifying response `s` for challenge `auth_id` in this
    /// state.
    pub open spec fn outcome(&self, auth_id: Seq<char>, s: Seq<u8>) -> Outcome {
        if !self.auth_id_to_user_hashmap@.contains_key(auth_id) {
            Outcome::UnknownChallenge
        } else {
            let sess = self.auth_id_to_user_hashmap@[auth_id];
            if !self.user_info@.contains_key(sess.user_name@) {
                Outcome::UnknownUser
            } else {
                let u = self.user_info@[sess.user_name@];
                if accepts(
                    self.group,
                    be_value(sess.r1@),
                    be_value(sess.r2@),
                    be_value(u.y1@),
                    be_value(u.y2@),
                    be_value(sess.c@),
                    be_value(s),
                ) {
                    Outcome::Accepted
                } else {
                    Outcome::Rejected
                }
            }
        }
    }

    /// A service with no users and no challenges.
    pub fn new(group: Group) -> (r: AuthImpl)
        ensures
            r.group == group,
            r.user_info@ == Map::<Seq<char>, UserInfo>::empty(),
            r.auth_id_to_user_hashmap@ == Map::<Seq<char>, ChallengeSession>::empty(),
    {
        AuthImpl {
            group,
            user_info: StringHashMap::new(),
            auth_id_to_user_hashmap: StringHashMap::new(),
        }
    }

    /// Stores the identity of `user`, replacing any earlier one.
    pub fn register(&mut self, user: String, y1: Vec<u8>, y2: Vec<u8>)
        ensures
            final(self).user_info@ == old(self).user_info@.insert(
                user@,
                UserInfo { user_name: user, y1, y2 },
            ),
            final(self).auth_id_to_user_hashmap@ == old(self).auth_id_to_user_hashmap@,
            final(self).group == old(self).group,
    {
        let key = user.clone();
        let info = UserInfo { user_name: user, y1, y2 };
        self.user_info.insert(key, info);
    }

    /// Opens a challenge for `user` with commitments `r1`, `r2`, the drawn
    /// challenge `c` and the fresh identifier `auth_id`. Fails with
    /// `NotFound(user)`, and changes nothing, when `user` is not registered.
    pub fn create_challenge_with(
        &mut self,
        user: String,
        r1: Vec<u8>,
        r2: Vec<u8>,
        c: Vec<u8>,
        auth_id: String,
    ) -> (r: Result<(), AuthError>)
        ensures
            final(self).group == old(self).group,
            final(self).user_info@ == old(self).user_info@,
            r is Ok <==> old(self).user_info@.contains_key(user@),
            r is Ok ==> final(self).auth_id_to_user_hashmap@ == old(
                self,
            ).auth_id_to_user_hashmap@.insert(
                auth_id@,
                ChallengeSession { user_name: user, r1, r2, c },
            ),
            r matches Err(e) ==> e == AuthError::NotFound(user)
                && final(self).auth_id_to_user_hashmap@ == old(self).auth_id_to_user_hashmap@,
    {
        if self.user_info.contains_key(user.as_str()) {
            let sess = ChallengeSession { user_name: user, r1, r2, c };
            self.auth_id_to_user_hashmap.insert(auth_id, sess);
            Ok(())
        } else {
            Err(AuthError::NotFound(user))
        }
    }

    /// CreateAuthenticationChallenge: for a registered `user`, draws a fresh
    /// challenge `c` in `[0, q)` and a fresh auth_id, records the attempt
    /// and returns both. Fails with `NotFound(user)`, and records nothing,
    /// when `user` is not registered.
    pub fn create_authentication_challenge(&mut self, user: String, r1: Vec<u8>, r2: Vec<u8>) -> (r:
        Result<(String, Vec<u8>), AuthError>)
        requires
            old(self).wf(),
        ensures
            final(self).group == old(self).group,
            final(self).user_info@ == old(self).user_info@,
            r is Ok <==> old(self).user_info@.contains_key(user@),
            r matches Ok((auth_id, c)) ==> {
                &&& auth_id@.len() == ID_LEN
                &&& forall|i: int| 0 <= i < ID_LEN ==> is_id_code(#[trigger] auth_id@[i] as u32)
                &&& be_value(c@) < old(self).group.q_val()
                &&& final(self).auth_id_to_user_hashmap@ == old(
                    self,
                ).auth_id_to_user_hashmap@.insert(
                    auth_id@,
                    final(self).auth_id_to_user_hashmap@[auth_id@],
                )
                &&& final(self).auth_id_to_user_hashmap@[auth_id@].holds(user@, r1@, r2@, c@)
            },
            r matches Err(e) ==> e == AuthError::NotFound(user)
                && final(self).auth_id_to_user_hashmap@ == old(self).auth_id_to_user_hashmap@,
    {
        if !self.user_info.contains_key(user.as_str()) {
            return Err(AuthError::NotFound(user));
        }
        let c = random_scalar(self.group.q.as_slice());
        let auth_id = generate_identifier(ID_LEN);
        let c_out = c.clone();
        let id_out = auth_id.clone();
        match self.create_challenge_with(user, r1, r2, c, auth_id) {
            Ok(()) => Ok((id_out, c_out)),
            Err(e) => Err(e),
        }
    }

    /// The decision on response `s` for challenge `auth_id`, read from the
    /// registry first and the identity store second.
    pub fn check_answer(&self, auth_id: &str, s: &[u8]) -> (r: Outcome)
        requires
            self.wf(),
        ensures
            r == self.outcome(auth_id@, s@),
    {
        match self.auth_id_to_user_hashmap.get(auth_id) {
            None => Outcome::UnknownChallenge,
            Some(sess) => match self.user_info.get(sess.user_name.as_str()) {
                None => Outcome::UnknownUser,
                Some(u) => {
                    if verify(
                        &self.group,
                        sess.r1.as_slice(),
                        sess.r2.as_slice(),
                        u.y1.as_slice(),
                        u.y2.as_slice(),
                        sess.c.as_slice(),
                        s,
                    ) {
                        Outcome::Accepted
                    } else {
                        Outcome::Rejected
                    }
                },
            },
        }
    }

    /// VerifyAuthentication: checks response `s` against challenge `auth_id`
    /// and, when it is accepted, returns a fresh session_id. Fails with
    /// `NotFound(auth_id)` for an unknown challenge, with
    /// `PermissionDenied(auth_id)` for a wrong response, and with
    /// `InternalConsistency(auth_id)` when the user has vanished. The state
    /// is not changed, so the same call gives the same decision again.
    pub fn verify_authentication(&self, auth_id: String, s: Vec<u8>) -> (r: Result<
        String,
        AuthError,
    >)
        requires
            self.wf(),
        ensures
            r is Ok <==> self.outcome(auth_id@, s@) == Outcome::Accepted,
            r matches Ok(session_id) ==> session_id@.len() == ID_LEN && forall|i: int|
                0 <= i < ID_LEN ==> is_id_code(#[trigger] session_id@[i] as u32),
            self.outcome(auth_id@, s@) == Outcome::UnknownChallenge ==> r == Err::<
                String,
                AuthError,
            >(AuthError::NotFound(auth_id)),
            self.outcome(auth_id@, s@) == Outcome::Rejected ==> r == Err::<String, AuthError>(
                AuthError::PermissionDenied(auth_id),
            ),
            self.outcome(auth_id@, s@) == Outcome::UnknownUser ==> r == Err::<String, AuthError>(
                AuthError::InternalConsistency(auth_id),
            ),
    {
        match self.check_answer(auth_id.as_str(), s.as_slice()) {
            Outcome::Accepted => Ok(generate_identifier(ID_LEN)),
            Outcome::UnknownChallenge => Err(AuthError::NotFound(auth_id)),
            Outcome::Rejected => Err(AuthError::PermissionDenied(auth_id)),
            Outcome::UnknownUser => Err(AuthError::InternalConsistency(auth_id)),
        }
    }
}

} // verus!
