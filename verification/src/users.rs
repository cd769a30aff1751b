//! Profiles and roles: who is registered, who was verified, and who may act
//! as administrator or verifier.
use vstd::prelude::*;
use crate::contract::{
    lemma_keys_are_distinct, lemma_profiles_changed_keeps_well_formed, ContractView,
    OracleIntentContract,
};
use crate::error::OracleError;
use crate::flags::{remove_flagged, unflagged};
use crate::store::{has_key, lemma_changed_in_place, replace, Keyed};
use crate::types::{lemma_views_push, views, UserProfile, UserRole, UserView};

verus! {

/// The highest verification level.
pub const MAX_VERIFICATION_LEVEL: u8 = 5;

/// For each text of a list, whether it is the given text.
pub open spec fn occurrences(texts: Seq<Seq<char>>, text: Seq<char>) -> Seq<bool> {
    Seq::new(texts.len(), |i: int| texts[i] == text)
}

/// The list without the given text.
pub open spec fn without(texts: Seq<Seq<char>>, text: Seq<char>) -> Seq<Seq<char>> {
    unflagged(texts, occurrences(texts, text))
}

/// A list of accounts after an account left the role `role` for `new_role`:
/// the account is taken out if it held the role of the list, and added at
/// the end if it now holds it.
pub open spec fn reassigned(
    accounts: Seq<Seq<char>>,
    role: UserRole,
    account: Seq<char>,
    old_role: UserRole,
    new_role: UserRole,
) -> Seq<Seq<char>> {
    let cleared = if old_role == role {
        without(accounts, account)
    } else {
        accounts
    };
    if new_role == role {
        cleared.push(account)
    } else {
        cleared
    }
}

impl UserView {
    /// The profile of an account that registers at `now`.
    pub open spec fn fresh(account: Seq<char>, role: UserRole, now: u64) -> UserView {
        UserView {
            account_id: account,
            role,
            registration_date: now,
            is_verified: false,
            verification_level: 0,
            total_intents_created: 0,
            total_stake_committed: 0,
        }
    }
}

impl ContractView {
    /// Why a registration is refused, if it is. The checks are made in this
    /// order: the account has no profile yet; only the owner registers an
    /// administrator; only the owner or an administrator registers a
    /// verifier.
    pub open spec fn register_user_error(self, caller: Seq<char>, role: UserRole) -> Option<
        OracleError,
    > {
        if has_key(self.users, caller) {
            Some(OracleError::UserAlreadyRegistered)
        } else if role == UserRole::Admin && !self.is_owner(caller) {
            Some(OracleError::NotOwner)
        } else if role == UserRole::Verifier && !self.is_admin_or_owner(caller) {
            Some(OracleError::NotAdminOrOwner)
        } else {
            None
        }
    }

    /// The engine after an admitted registration: one more profile, and the
    /// account among the administrators or verifiers if that is its role.
    pub open spec fn register_user_effect(self, caller: Seq<char>, role: UserRole, now: u64)
        -> ContractView {
        ContractView {
            users: self.users.push(UserView::fresh(caller, role, now)),
            admins: if role == UserRole::Admin {
                self.admins.push(caller)
            } else {
                self.admins
            },
            verifiers: if role == UserRole::Verifier {
                self.verifiers.push(caller)
            } else {
                self.verifiers
            },
            ..self
        }
    }

    /// Why a verification is refused, if it is. The checks are made in this
    /// order: the caller is the owner, an administrator or a verifier; the
    /// level is at most five; the account has a profile.
    pub open spec fn verify_user_error(
        self,
        caller: Seq<char>,
        user_id: Seq<char>,
        verification_level: u8,
    ) -> Option<OracleError> {
        if !self.is_verifier_or_admin(caller) {
            Some(OracleError::NotVerifierOrAdmin)
        } else if verification_level > MAX_VERIFICATION_LEVEL {
            Some(OracleError::InvalidVerificationLevel)
        } else if self.user(user_id) is None {
            Some(OracleError::UserNotFound)
        } else {
            None
        }
    }

    /// The engine after an admitted verification: the profile carries the
    /// level, and counts as verified from level one.
    pub open spec fn verify_user_effect(self, user_id: Seq<char>, verification_level: u8)
        -> ContractView {
        let user = self.user(user_id)->0;
        ContractView {
            users: replace(
                self.users,
                user_id,
                UserView { is_verified: verification_level > 0, verification_level, ..user },
            ),
            ..self
        }
    }

    /// Why a change of role is refused, if it is. The checks are made in this
    /// order: the caller is the owner or an administrator; the account has a
    /// profile.
    pub open spec fn update_user_role_error(self, caller: Seq<char>, user_id: Seq<char>) -> Option<
        OracleError,
    > {
        if !self.is_admin_or_owner(caller) {
            Some(OracleError::NotAdminOrOwner)
        } else if self.user(user_id) is None {
            Some(OracleError::UserNotFound)
        } else {
            None
        }
    }

    /// The engine after an admitted change of role: the profile carries the
    /// new role, and the lists of administrators and verifiers follow.
    pub open spec fn update_user_role_effect(self, user_id: Seq<char>, new_role: UserRole)
        -> ContractView {
        let user = self.user(user_id)->0;
        ContractView {
            users: replace(self.users, user_id, UserView { role: new_role, ..user }),
            admins: reassigned(self.admins, UserRole::Admin, user_id, user.role, new_role),
            verifiers: reassigned(self.verifiers, UserRole::Verifier, user_id, user.role, new_role),
            ..self
        }
    }
}

/// Takes every occurrence of a text out of a list of texts.
pub fn remove_text(texts: &mut Vec<String>, text: &String)
    ensures
        views(final(texts)@) == without(views(old(texts)@), text@),
{
    let mut marks: Vec<bool> = Vec::new();
    let mut i: usize = 0;
    while i < texts.len()
        invariant
            i <= texts.len(),
            marks.len() == i,
            forall|j: int| 0 <= j < i ==> marks@[j] == (views(texts@)[j] == text@),
        decreases texts.len() - i,
    {
        marks.push(texts[i] == *text);
        i += 1;
    }
    assert(marks@ =~= occurrences(views(texts@), text@));
    remove_flagged(texts, &marks);
}

impl OracleIntentContract {
    /// Registers a profile for the caller, with a role. Only the owner
    /// registers an administrator, and only the owner or an administrator
    /// registers a verifier.
    pub fn register_user(&mut self, caller: String, role: UserRole, now: u64) -> (result: Result<
        (),
        OracleError,
    >)
        requires
            old(self).well_formed(),
        ensures
            final(self).well_formed(),
            match result {
                Ok(_) => {
                    &&& old(self)@.register_user_error(caller@, role) is None
                    &&& final(self)@ == old(self)@.register_user_effect(caller@, role, now)
                },
                Err(e) => {
                    &&& old(self)@.register_user_error(caller@, role) == Some(e)
                    &&& final(self)@ == old(self)@
                },
            },
    {
        if self.find_user(&caller).is_some() {
            return Err(OracleError::UserAlreadyRegistered);
        }
        if role == UserRole::Admin && !self.caller_is_owner(&caller) {
            return Err(OracleError::NotOwner);
        }
        if role == UserRole::Verifier && !self.caller_is_admin_or_owner(&caller) {
            return Err(OracleError::NotAdminOrOwner);
        }
        let ghost pre = self@;
        let profile = UserProfile {
            account_id: caller.clone(),
            role,
            registration_date: now,
            is_verified: false,
            verification_level: 0,
            total_intents_created: 0,
            total_stake_committed: 0,
        };
        proof {
            lemma_keys_are_distinct(pre);
            lemma_views_push(self.users@, profile);
            lemma_views_push(self.admins@, caller);
            lemma_views_push(self.verifiers@, caller);
        }
        self.users.push(profile);
        if role == UserRole::Admin {
            self.admins.push(caller);
        } else if role == UserRole::Verifier {
            self.verifiers.push(caller);
        }
        proof {
            lemma_profiles_changed_keeps_well_formed(pre, self@);
        }
        Ok(())
    }

    /// Sets the verification level of an account's profile. Only the owner,
    /// an administrator or a verifier may do so.
    pub fn verify_user(
        &mut self,
        caller: String,
        user_id: String,
        verification_level: u8,
    ) -> (result: Result<(), OracleError>)
        requires
            old(self).well_formed(),
        ensures
            final(self).well_formed(),
            match result {
                Ok(_) => {
                    &&& old(self)@.verify_user_error(caller@, user_id@, verification_level) is None
                    &&& final(self)@ == old(self)@.verify_user_effect(user_id@, verification_level)
                },
                Err(e) => {
                    &&& old(self)@.verify_user_error(caller@, user_id@, verification_level)
                        == Some(e)
                    &&& final(self)@ == old(self)@
                },
            },
    {
        if !self.caller_is_verifier_or_admin(&caller) {
            return Err(OracleError::NotVerifierOrAdmin);
        }
        if verification_level > MAX_VERIFICATION_LEVEL {
            return Err(OracleError::InvalidVerificationLevel);
        }
        let u = match self.find_user(&user_id) {
            Some(u) => u,
            None => {
                return Err(OracleError::UserNotFound);
            },
        };
        let ghost pre = self@;
        let ghost before = self.users@;
        proof {
            lemma_keys_are_distinct(pre);
        }
        self.users[u].is_verified = verification_level > 0;
        self.users[u].verification_level = verification_level;
        proof {
            lemma_changed_in_place(before, self.users@, u as int);
            lemma_profiles_changed_keeps_well_formed(pre, self@);
        }
        Ok(())
    }

    /// Changes the role of an account. Only the owner or an administrator
    /// may do so.
    pub fn update_user_role(
        &mut self,
        caller: String,
        user_id: String,
        new_role: UserRole,
    ) -> (result: Result<(), OracleError>)
        requires
            old(self).well_formed(),
        ensures
            final(self).well_formed(),
            match result {
                Ok(_) => {
                    &&& old(self)@.update_user_role_error(caller@, user_id@) is None
                    &&& final(self)@ == old(self)@.update_user_role_effect(user_id@, new_role)
                },
                Err(e) => {
                    &&& old(self)@.update_user_role_error(caller@, user_id@) == Some(e)
                    &&& final(self)@ == old(self)@
                },
            },
    {
        if !self.caller_is_admin_or_owner(&caller) {
            return Err(OracleError::NotAdminOrOwner);
        }
        let u = match self.find_user(&user_id) {
            Some(u) => u,
            None => {
                return Err(OracleError::UserNotFound);
            },
        };
        let ghost pre = self@;
        proof {
            lemma_keys_are_distinct(pre);
        }
        let old_role = self.users[u].role;
        if old_role == UserRole::Admin {
            remove_text(&mut self.admins, &user_id);
        } else if old_role == UserRole::Verifier {
            remove_text(&mut self.verifiers, &user_id);
        }
        if new_role == UserRole::Admin {
            proof {
                lemma_views_push(self.admins@, user_id);
            }
            self.admins.push(user_id.clone());
        } else if new_role == UserRole::Verifier {
            proof {
                lemma_views_push(self.verifiers@, user_id);
            }
            self.verifiers.push(user_id.clone());
        }
        let ghost before = self.users@;
        self.users[u].role = new_role;
        proof {
            lemma_changed_in_place(before, self.users@, u as int);
            lemma_profiles_changed_keeps_well_formed(pre, self@);
        }
        Ok(())
    }

    /// Whether the account has a profile that counts as verified.
    pub fn is_user_verified(&self, user_id: &String) -> (verified: bool)
        requires
            self.well_formed(),
        ensures
            verified == match self@.user(user_id@) {
                Some(user) => user.is_verified,
                None => false,
            },
    {
        match self.find_user(user_id) {
            Some(u) => {
                proof {
                    lemma_keys_are_distinct(self@);
                }
                self.users[u].is_verified
            },
            None => false,
        }
    }
}

} // verus!
