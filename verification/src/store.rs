//! The user-record store: the per-user state the protocol reads and writes.
//!
//! The store models the repository contract: single-record atomic reads and
//! updates, keyed by a unique identifier. Its invariant carries the MFA
//! state machine's data constraints: a verified factor is an enabled one,
//! and a disabled account holds no secret.

use vstd::prelude::*;

use crate::ext::base32_of;
use vstd::string::StringExecFns;

verus! {

/// One user record, with its second-factor state.
pub struct User {
    pub id: u128,
    pub username: String,
    pub email: String,
    pub password_hash: String,
    pub otp_enabled: bool,
    pub otp_verified: bool,
    /// The raw shared secret, present exactly while the factor is enabled.
    pub otp_secret: Option<Vec<u8>>,
    /// The secret's base32 text, as shown to the user once.
    pub otp_base32: Option<String>,
    /// The provisioning URI for authenticator apps.
    pub otp_auth_url: Option<String>,
}

/// The record-level invariant of the MFA state machine.
pub open spec fn user_wf(u: User) -> bool {
    &&& u.otp_verified ==> u.otp_enabled
    &&& !u.otp_enabled ==> u.otp_secret is None && u.otp_base32 is None && u.otp_auth_url is None
    &&& u.otp_enabled ==> match (u.otp_secret, u.otp_base32) {
        (Some(s), Some(b)) => s@.len() == 21 && b@ == base32_of(s@) && u.otp_auth_url is Some,
        _ => false,
    }
}

pub open spec fn unique_ids(s: Seq<User>) -> bool {
    forall|i: int, j: int| 0 <= i < j < s.len() ==> s[i].id != s[j].id
}

/// The record holding `id`, if any (ids are unique in a well-formed store).
pub open spec fn lookup(s: Seq<User>, id: u128) -> Option<User>
    decreases s.len(),
{
    if s.len() == 0 {
        None
    } else if s[0].id == id {
        Some(s[0])
    } else {
        lookup(s.drop_first(), id)
    }
}

/// The first record with this email, if any.
pub open spec fn lookup_email(s: Seq<User>, email: Seq<char>) -> Option<User>
    decreases s.len(),
{
    if s.len() == 0 {
        None
    } else if s[0].email@ == email {
        Some(s[0])
    } else {
        lookup_email(s.drop_first(), email)
    }
}

/// The first record with this username, if any.
pub open spec fn lookup_username(s: Seq<User>, name: Seq<char>) -> Option<User>
    decreases s.len(),
{
    if s.len() == 0 {
        None
    } else if s[0].username@ == name {
        Some(s[0])
    } else {
        lookup_username(s.drop_first(), name)
    }
}

/// The in-memory store of user records.
pub struct UserStore {
    pub users: Vec<User>,
    pub next_id: u128,
}

impl UserStore {
    /// Every record is well formed, ids are unique, and ids stay below the
    /// allocation counter.
    pub open spec fn wf(&self) -> bool {
        &&& unique_ids(self.users@)
        &&& forall|i: int| 0 <= i < self.users@.len() ==> user_wf(#[trigger] self.users@[i])
        &&& forall|i: int| 0 <= i < self.users@.len() ==> (#[trigger] self.users@[i]).id
            < self.next_id
    }

    pub fn new() -> (r: Self)
        ensures
            r.wf(),
            r.users@.len() == 0,
    {
        UserStore { users: Vec::new(), next_id: 0 }
    }

    pub fn get_user_by_id(&self, user_id: u128) -> (r: Option<&User>)
        ensures
            match r {
                Some(u) => lookup(self.users@, user_id) == Some(*u),
                None => lookup(self.users@, user_id) is None,
            },
    {
        let n = self.users.len();
        let mut k: usize = 0;
        while k < n
            invariant
                k <= n,
                n == self.users@.len(),
                forall|i: int| 0 <= i < k ==> (#[trigger] self.users@[i]).id != user_id,
            decreases n - k,
        {
            if self.users[k].id == user_id {
                proof {
                    lemma_lookup_at(self.users@, user_id, k as int);
                }
                return Some(&self.users[k]);
            }
            k = k + 1;
        }
        proof {
            lemma_lookup_miss(self.users@, user_id);
        }
        None
    }

    pub fn get_user_by_email(&self, email: &str) -> (r: Option<&User>)
        ensures
            match r {
                Some(u) => lookup_email(self.users@, email@) == Some(*u),
                None => lookup_email(self.users@, email@) is None,
            },
    {
        let n = self.users.len();
        let mut k: usize = 0;
        while k < n
            invariant
                k <= n,
                n == self.users@.len(),
                forall|i: int| 0 <= i < k ==> (#[trigger] self.users@[i]).email@ != email@,
            decreases n - k,
        {
            if str_eq(self.users[k].email.as_str(), email) {
                proof {
                    lemma_lookup_email_at(self.users@, email@, k as int);
                }
                return Some(&self.users[k]);
            }
            k = k + 1;
        }
        proof {
            lemma_lookup_email_miss(self.users@, email@);
        }
        None
    }

    pub fn get_user_by_username(&self, name: &str) -> (r: Option<&User>)
        ensures
            match r {
                Some(u) => lookup_username(self.users@, name@) == Some(*u),
                None => lookup_username(self.users@, name@) is None,
            },
    {
        let n = self.users.len();
        let mut k: usize = 0;
        while k < n
            invariant
                k <= n,
                n == self.users@.len(),
                forall|i: int| 0 <= i < k ==> (#[trigger] self.users@[i]).username@ != name@,
            decreases n - k,
        {
            if str_eq(self.users[k].username.as_str(), name) {
                proof {
                    lemma_lookup_username_at(self.users@, name@, k as int);
                }
                return Some(&self.users[k]);
            }
            k = k + 1;
        }
        proof {
            lemma_lookup_username_miss(self.users@, name@);
        }
        None
    }

    /// Adds a record with a fresh id and no second factor; returns its id.
    pub fn create_user(&mut self, username: &str, email: &str, password_hash: &str) -> (r: u128)
        requires
            old(self).wf(),
            old(self).next_id < u128::MAX,
        ensures
            final(self).wf(),
            r == old(self).next_id,
            final(self).next_id == old(self).next_id + 1,
            final(self).users@.len() == old(self).users@.len() + 1,
            lookup(final(self).users@, r) == Some(final(self).users@.last()),
            final(self).users@.last().id == r,
            final(self).users@.last().username@ == username@,
            final(self).users@.last().email@ == email@,
            final(self).users@.last().password_hash@ == password_hash@,
            !final(self).users@.last().otp_enabled && !final(self).users@.last().otp_verified,
            forall|x: u128| x != r ==> lookup(final(self).users@, x) == lookup(old(self).users@, x),
            forall|e: Seq<char>|
                lookup_email(old(self).users@, e) is Some ==> lookup_email(final(self).users@, e)
                    == lookup_email(old(self).users@, e),
            lookup_email(old(self).users@, email@) is None ==> lookup_email(
                final(self).users@,
                email@,
            ) == Some(final(self).users@.last()),
            lookup_username(old(self).users@, username@) is None ==> lookup_username(
                final(self).users@,
                username@,
            ) == Some(final(self).users@.last()),
            final(self).users@ == old(self).users@.push(final(self).users@.last()),
    {
        let id = self.next_id;
        let u = User {
            id,
            username: String::from_str(username),
            email: String::from_str(email),
            password_hash: String::from_str(password_hash),
            otp_enabled: false,
            otp_verified: false,
            otp_secret: None,
            otp_base32: None,
            otp_auth_url: None,
        };
        proof {
            assert(forall|i: int|
                0 <= i < self.users@.len() ==> (#[trigger] self.users@[i]).id != id);
        }
        self.users.push(u);
        self.next_id = id + 1;
        proof {
            let s = self.users@;
            let prev = old(self).users@;
            assert(s.last() == s[s.len() - 1]);
            assert(s.drop_last() =~= prev);
            lemma_lookup_push(prev, s.last());
            assert(s =~= prev.push(s.last()));
            lemma_lookup_email_push(prev, s.last());
            lemma_lookup_username_push(prev, s.last());
        }
        id
    }

    /// Stores a freshly provisioned secret and enables the factor; the
    /// verified flag keeps its prior value. Returns whether the user exists.
    pub fn update_user_otp(
        &mut self,
        user_id: u128,
        secret: Vec<u8>,
        otp_base32: String,
        otp_auth_url: String,
    ) -> (r: bool)
        requires
            old(self).wf(),
            secret@.len() == 21,
            otp_base32@ == base32_of(secret@),
        ensures
            final(self).wf(),
            final(self).next_id == old(self).next_id,
            r == (lookup(old(self).users@, user_id) is Some),
            !r ==> *final(self) == *old(self),
            r ==> {
                let prior = lookup(old(self).users@, user_id)->0;
                let cur = lookup(final(self).users@, user_id);
                &&& cur matches Some(u2)
                &&& u2.id == user_id
                &&& u2.username@ == prior.username@
                &&& u2.email@ == prior.email@
                &&& u2.password_hash@ == prior.password_hash@
                &&& u2.otp_enabled
                &&& u2.otp_verified == prior.otp_verified
                &&& u2.otp_secret matches Some(sec) && sec@ == secret@
                &&& u2.otp_base32 matches Some(b) && b@ == otp_base32@
                &&& u2.otp_auth_url matches Some(a) && a@ == otp_auth_url@
            },
            forall|x: u128| x != user_id ==> lookup(final(self).users@, x) == lookup(old(self).users@, x),
            forall|e: Seq<char>|
                #![trigger lookup_email(old(self).users@, e)]
                (lookup_email(old(self).users@, e) matches Some(u) && u.id != user_id)
                    ==> (lookup_email(final(self).users@, e) matches Some(u2) && u2.id == (lookup_email(
                        old(self).users@,
                        e,
                    )->0).id),
    {
        let n = self.users.len();
        let mut k: usize = 0;
        while k < n
            invariant
                k <= n,
                n == self.users@.len(),
                self == old(self),
                old(self).wf(),
                secret@.len() == 21,
                otp_base32@ == base32_of(secret@),
                forall|i: int| 0 <= i < k ==> (#[trigger] self.users@[i]).id != user_id,
            decreases n - k,
        {
            if self.users[k].id == user_id {
                proof {
                    lemma_lookup_at(self.users@, user_id, k as int);
                }
                let prior = &self.users[k];
                let u2 = User {
                    id: prior.id,
                    username: prior.username.clone(),
                    email: prior.email.clone(),
                    password_hash: prior.password_hash.clone(),
                    otp_enabled: true,
                    otp_verified: prior.otp_verified,
                    otp_secret: Some(secret),
                    otp_base32: Some(otp_base32),
                    otp_auth_url: Some(otp_auth_url),
                };
                self.users.set(k, u2);
                proof {
                    lemma_lookup_update(old(self).users@, k as int, self.users@[k as int]);
                    lemma_lookup_email_update(old(self).users@, k as int, self.users@[k as int]);
                    assert(self.users@ =~= old(self).users@.update(
                        k as int,
                        self.users@[k as int],
                    ));
                    assert forall|i: int| 0 <= i < self.users@.len() implies user_wf(
                        #[trigger] self.users@[i],
                    ) by {
                        if i != k as int {
                            assert(self.users@[i] == old(self).users@[i]);
                            assert(user_wf(old(self).users@[i]));
                        }
                    }
                    assert forall|i: int|
                        0 <= i < self.users@.len() implies (#[trigger] self.users@[i]).id
                        < self.next_id by {
                        if i != k as int {
                            assert(self.users@[i] == old(self).users@[i]);
                        }
                    }
                }
                return true;
            }
            k = k + 1;
        }
        proof {
            lemma_lookup_miss(self.users@, user_id);
        }
        false
    }

    /// Marks the factor as confirmed by a successful code check. Succeeds
    /// exactly when the user exists with the factor enabled.
    pub fn verify_user_otp(&mut self, user_id: u128) -> (r: bool)
        requires
            old(self).wf(),
        ensures
            final(self).wf(),
            final(self).next_id == old(self).next_id,
            r == (lookup(old(self).users@, user_id) matches Some(u) && u.otp_enabled),
            !r ==> *final(self) == *old(self),
            r ==> {
                let prior = lookup(old(self).users@, user_id)->0;
                let cur = lookup(final(self).users@, user_id);
                &&& cur matches Some(u2)
                &&& u2.id == user_id
                &&& u2.username@ == prior.username@
                &&& u2.email@ == prior.email@
                &&& u2.password_hash@ == prior.password_hash@
                &&& u2.otp_enabled
                &&& u2.otp_verified
                &&& (u2.otp_secret matches Some(sec) && prior.otp_secret matches Some(ps)
                    && sec@ == ps@)
                &&& (u2.otp_base32 matches Some(b) && prior.otp_base32 matches Some(pb) && b@
                    == pb@)
                &&& (u2.otp_auth_url matches Some(a2) && prior.otp_auth_url matches Some(pa)
                    && a2@ == pa@)
            },
            forall|x: u128| x != user_id ==> lookup(final(self).users@, x) == lookup(old(self).users@, x),
    {
        let n = self.users.len();
        let mut k: usize = 0;
        while k < n
            invariant
                k <= n,
                n == self.users@.len(),
                self == old(self),
                old(self).wf(),
                forall|i: int| 0 <= i < k ==> (#[trigger] self.users@[i]).id != user_id,
            decreases n - k,
        {
            if self.users[k].id == user_id {
                proof {
                    lemma_lookup_at(self.users@, user_id, k as int);
                }
                if !self.users[k].otp_enabled {
                    return false;
                }
                let prior = &self.users[k];
                let u2 = User {
                    id: prior.id,
                    username: prior.username.clone(),
                    email: prior.email.clone(),
                    password_hash: prior.password_hash.clone(),
                    otp_enabled: true,
                    otp_verified: true,
                    otp_secret: clone_secret(&prior.otp_secret),
                    otp_base32: clone_opt_string(&prior.otp_base32),
                    otp_auth_url: clone_opt_string(&prior.otp_auth_url),
                };
                proof {
                    assert(user_wf(old(self).users@[k as int]));
                }
                self.users.set(k, u2);
                proof {
                    lemma_lookup_update(old(self).users@, k as int, self.users@[k as int]);
                    assert(self.users@ =~= old(self).users@.update(
                        k as int,
                        self.users@[k as int],
                    ));
                    assert forall|i: int| 0 <= i < self.users@.len() implies user_wf(
                        #[trigger] self.users@[i],
                    ) by {
                        if i != k as int {
                            assert(self.users@[i] == old(self).users@[i]);
                            assert(user_wf(old(self).users@[i]));
                        }
                    }
                    assert forall|i: int|
                        0 <= i < self.users@.len() implies (#[trigger] self.users@[i]).id
                        < self.next_id by {
                        if i != k as int {
                            assert(self.users@[i] == old(self).users@[i]);
                        }
                    }
                }
                return true;
            }
            k = k + 1;
        }
        proof {
            lemma_lookup_miss(self.users@, user_id);
        }
        false
    }

    /// Clears the secret and both flags; succeeds whenever the user
    /// exists, also when the factor is already off.
    pub fn disable_user_otp(&mut self, user_id: u128) -> (r: bool)
        requires
            old(self).wf(),
        ensures
            final(self).wf(),
            final(self).next_id == old(self).next_id,
            r == (lookup(old(self).users@, user_id) is Some),
            !r ==> *final(self) == *old(self),
            r ==> {
                let prior = lookup(old(self).users@, user_id)->0;
                let cur = lookup(final(self).users@, user_id);
                &&& cur matches Some(u2)
                &&& u2.id == user_id
                &&& u2.username@ == prior.username@
                &&& u2.email@ == prior.email@
                &&& u2.password_hash@ == prior.password_hash@
                &&& !u2.otp_enabled
                &&& !u2.otp_verified
                &&& u2.otp_secret is None
                &&& u2.otp_base32 is None
                &&& u2.otp_auth_url is None
            },
            forall|x: u128| x != user_id ==> lookup(final(self).users@, x) == lookup(old(self).users@, x),
    {
        let n = self.users.len();
        let mut k: usize = 0;
        while k < n
            invariant
                k <= n,
                n == self.users@.len(),
                self == old(self),
                old(self).wf(),
                forall|i: int| 0 <= i < k ==> (#[trigger] self.users@[i]).id != user_id,
            decreases n - k,
        {
            if self.users[k].id == user_id {
                proof {
                    lemma_lookup_at(self.users@, user_id, k as int);
                }
                let prior = &self.users[k];
                let u2 = User {
                    id: prior.id,
                    username: prior.username.clone(),
                    email: prior.email.clone(),
                    password_hash: prior.password_hash.clone(),
                    otp_enabled: false,
                    otp_verified: false,
                    otp_secret: None,
                    otp_base32: None,
                    otp_auth_url: None,
                };
                self.users.set(k, u2);
                proof {
                    lemma_lookup_update(old(self).users@, k as int, self.users@[k as int]);
                    assert(self.users@ =~= old(self).users@.update(
                        k as int,
                        self.users@[k as int],
                    ));
                    assert forall|i: int| 0 <= i < self.users@.len() implies user_wf(
                        #[trigger] self.users@[i],
                    ) by {
                        if i != k as int {
                            assert(self.users@[i] == old(self).users@[i]);
                            assert(user_wf(old(self).users@[i]));
                        }
                    }
                    assert forall|i: int|
                        0 <= i < self.users@.len() implies (#[trigger] self.users@[i]).id
                        < self.next_id by {
                        if i != k as int {
                            assert(self.users@[i] == old(self).users@[i]);
                        }
                    }
                }
                return true;
            }
            k = k + 1;
        }
        proof {
            lemma_lookup_miss(self.users@, user_id);
        }
        false
    }
}

/// Whether two strings hold the same characters.
pub fn str_eq(a: &str, b: &str) -> (r: bool)
    ensures
        r == (a@ == b@),
{
    let x = String::from_str(a);
    let y = String::from_str(b);
    x == y
}

pub fn clone_secret(s: &Option<Vec<u8>>) -> (r: Option<Vec<u8>>)
    ensures
        match r {
            Some(v) => s matches Some(v0) && v@ == v0@,
            None => s is None,
        },
{
    match s {
        Some(v) => {
            let mut out: Vec<u8> = Vec::new();
            let mut i: usize = 0;
            while i < v.len()
                invariant
                    i <= v@.len(),
                    out@ =~= v@.take(i as int),
                decreases v@.len() - i,
            {
                out.push(v[i]);
                proof {
                    assert(out@ =~= v@.take(i + 1));
                }
                i = i + 1;
            }
            proof {
                assert(out@ =~= v@);
            }
            Some(out)
        },
        None => None,
    }
}

fn clone_opt_string(s: &Option<String>) -> (r: Option<String>)
    ensures
        match r {
            Some(v) => s matches Some(v0) && v@ == v0@,
            None => s is None,
        },
{
    match s {
        Some(v) => Some(v.clone()),
        None => None,
    }
}

proof fn lemma_lookup_at(s: Seq<User>, id: u128, k: int)
    requires
        0 <= k < s.len(),
        s[k].id == id,
        forall|i: int| 0 <= i < k ==> (#[trigger] s[i]).id != id,
    ensures
        lookup(s, id) == Some(s[k]),
    decreases k,
{
    if k > 0 {
        assert(s[0].id != id);
        assert(forall|i: int| 0 <= i < k - 1 ==> (#[trigger] s.drop_first()[i]).id != id);
        lemma_lookup_at(s.drop_first(), id, k - 1);
    }
}

proof fn lemma_lookup_miss(s: Seq<User>, id: u128)
    requires
        forall|i: int| 0 <= i < s.len() ==> (#[trigger] s[i]).id != id,
    ensures
        lookup(s, id) is None,
    decreases s.len(),
{
    if s.len() > 0 {
        lemma_lookup_miss(s.drop_first(), id);
    }
}

proof fn lemma_lookup_email_at(s: Seq<User>, email: Seq<char>, k: int)
    requires
        0 <= k < s.len(),
        s[k].email@ == email,
        forall|i: int| 0 <= i < k ==> (#[trigger] s[i]).email@ != email,
    ensures
        lookup_email(s, email) == Some(s[k]),
    decreases k,
{
    if k > 0 {
        assert(forall|i: int| 0 <= i < k - 1 ==> (#[trigger] s.drop_first()[i]).email@ != email);
        lemma_lookup_email_at(s.drop_first(), email, k - 1);
    }
}

proof fn lemma_lookup_email_miss(s: Seq<User>, email: Seq<char>)
    requires
        forall|i: int| 0 <= i < s.len() ==> (#[trigger] s[i]).email@ != email,
    ensures
        lookup_email(s, email) is None,
    decreases s.len(),
{
    if s.len() > 0 {
        lemma_lookup_email_miss(s.drop_first(), email);
    }
}

proof fn lemma_lookup_username_at(s: Seq<User>, name: Seq<char>, k: int)
    requires
        0 <= k < s.len(),
        s[k].username@ == name,
        forall|i: int| 0 <= i < k ==> (#[trigger] s[i]).username@ != name,
    ensures
        lookup_username(s, name) == Some(s[k]),
    decreases k,
{
    if k > 0 {
        assert(forall|i: int| 0 <= i < k - 1 ==> (#[trigger] s.drop_first()[i]).username@ != name);
        lemma_lookup_username_at(s.drop_first(), name, k - 1);
    }
}

proof fn lemma_lookup_username_miss(s: Seq<User>, name: Seq<char>)
    requires
        forall|i: int| 0 <= i < s.len() ==> (#[trigger] s[i]).username@ != name,
    ensures
        lookup_username(s, name) is None,
    decreases s.len(),
{
    if s.len() > 0 {
        lemma_lookup_username_miss(s.drop_first(), name);
    }
}

/// A record that `lookup` finds carries the looked-up id and is one of
/// the sequence's elements.
pub proof fn lemma_lookup_found(s: Seq<User>, id: u128)
    ensures
        lookup(s, id) matches Some(u) ==> u.id == id && exists|i: int|
            0 <= i < s.len() && s[i] == u,
    decreases s.len(),
{
    if s.len() > 0 {
        lemma_lookup_found(s.drop_first(), id);
        if s[0].id == id {
            assert(s[0] == s[0]);
        } else {
            if lookup(s.drop_first(), id) is Some {
                let u = lookup(s.drop_first(), id)->0;
                let i = choose|i: int| 0 <= i < s.drop_first().len() && s.drop_first()[i] == u;
                assert(s[i + 1] == u);
            }
        }
    }
}

proof fn lemma_lookup_push(s: Seq<User>, u: User)
    requires
        forall|i: int| 0 <= i < s.len() ==> (#[trigger] s[i]).id != u.id,
    ensures
        lookup(s.push(u), u.id) == Some(u),
        forall|x: u128| x != u.id ==> lookup(s.push(u), x) == lookup(s, x),
    decreases s.len(),
{
    let s2 = s.push(u);
    if s.len() == 0 {
        assert(s2[0] == u);
        assert(lookup(s2, u.id) == Some(u));
        assert forall|x: u128| x != u.id implies lookup(s2, x) == lookup(s, x) by {
            assert(s2.drop_first() =~= Seq::<User>::empty());
            assert(lookup(s2.drop_first(), x) is None);
        }
    } else {
        assert(forall|i: int|
            0 <= i < s.drop_first().len() ==> (#[trigger] s.drop_first()[i]).id != u.id) by {
            assert(forall|i: int|
                0 <= i < s.drop_first().len() ==> s.drop_first()[i] == #[trigger] s[i + 1]);
        }
        lemma_lookup_push(s.drop_first(), u);
        assert(s2.drop_first() =~= s.drop_first().push(u));
        assert(s2[0] == s[0]);
        assert(s[0].id != u.id);
        assert(lookup(s2, u.id) == lookup(s2.drop_first(), u.id));
        assert(lookup(s2.drop_first(), u.id) == Some(u));
        assert forall|x: u128| x != u.id implies lookup(s2, x) == lookup(s, x) by {
            if s[0].id != x {
                assert(lookup(s2.drop_first(), x) == lookup(s.drop_first(), x));
            }
        }
    }
}

proof fn lemma_lookup_email_push(s: Seq<User>, u: User)
    ensures
        forall|e: Seq<char>|
            lookup_email(s, e) is Some ==> lookup_email(s.push(u), e) == lookup_email(s, e),
        lookup_email(s, u.email@) is None ==> lookup_email(s.push(u), u.email@) == Some(u),
    decreases s.len(),
{
    if s.len() == 0 {
        assert(s.push(u)[0] == u);
    } else {
        lemma_lookup_email_push(s.drop_first(), u);
        assert(s.push(u)[0] == s[0]);
        assert(s.push(u).drop_first() =~= s.drop_first().push(u));
        assert forall|e: Seq<char>| lookup_email(s, e) is Some implies lookup_email(s.push(u), e)
            == lookup_email(s, e) by {
            if s[0].email@ != e {
                assert(lookup_email(s.drop_first(), e) is Some);
                assert(lookup_email(s.drop_first().push(u), e) == lookup_email(
                    s.drop_first(),
                    e,
                ));
            }
        }
        if lookup_email(s, u.email@) is None {
            assert(s[0].email@ != u.email@);
            assert(lookup_email(s.drop_first(), u.email@) is None);
        }
    }
}

proof fn lemma_lookup_username_push(s: Seq<User>, u: User)
    ensures
        forall|n: Seq<char>|
            lookup_username(s, n) is Some ==> lookup_username(s.push(u), n) == lookup_username(
                s,
                n,
            ),
        lookup_username(s, u.username@) is None ==> lookup_username(s.push(u), u.username@)
            == Some(u),
    decreases s.len(),
{
    if s.len() == 0 {
        assert(s.push(u)[0] == u);
    } else {
        lemma_lookup_username_push(s.drop_first(), u);
        assert(s.push(u)[0] == s[0]);
        assert(s.push(u).drop_first() =~= s.drop_first().push(u));
        assert forall|n: Seq<char>| lookup_username(s, n) is Some implies lookup_username(
            s.push(u),
            n,
        ) == lookup_username(s, n) by {
            if s[0].username@ != n {
                assert(lookup_username(s.drop_first(), n) is Some);
                assert(lookup_username(s.drop_first().push(u), n) == lookup_username(
                    s.drop_first(),
                    n,
                ));
            }
        }
        if lookup_username(s, u.username@) is None {
            assert(s[0].username@ != u.username@);
            assert(lookup_username(s.drop_first(), u.username@) is None);
        }
    }
}

proof fn lemma_lookup_update(s: Seq<User>, k: int, u: User)
    requires
        unique_ids(s),
        0 <= k < s.len(),
        u.id == s[k].id,
    ensures
        lookup(s.update(k, u), u.id) == Some(u),
        forall|x: u128| x != u.id ==> lookup(s.update(k, u), x) == lookup(s, x),
        unique_ids(s.update(k, u)),
    decreases s.len(),
{
    let s2 = s.update(k, u);
    assert forall|i: int, j: int| 0 <= i < j < s2.len() implies s2[i].id != s2[j].id by {
        assert(s[i].id != s[j].id);
    }
    if k == 0 {
        assert(s2[0] == u);
        assert(lookup(s2, u.id) == Some(u));
        assert forall|x: u128| x != u.id implies lookup(s2, x) == lookup(s, x) by {
            assert(s2.drop_first() =~= s.drop_first());
            assert(s[0].id == u.id);
            assert(lookup(s2.drop_first(), x) == lookup(s.drop_first(), x));
        }
    } else {
        assert(s2[0] == s[0]);
        assert(s[0].id != s[k].id);
        assert(unique_ids(s.drop_first())) by {
            assert forall|i: int, j: int|
                0 <= i < j < s.drop_first().len() implies s.drop_first()[i].id
                != s.drop_first()[j].id by {
                assert(s.drop_first()[i] == s[i + 1]);
                assert(s.drop_first()[j] == s[j + 1]);
            }
        }
        assert(s2.drop_first() =~= s.drop_first().update(k - 1, u));
        assert(s.drop_first()[k - 1] == s[k]);
        lemma_lookup_update(s.drop_first(), k - 1, u);
        assert(lookup(s2, u.id) == lookup(s2.drop_first(), u.id));
        assert(lookup(s2.drop_first(), u.id) == Some(u));
        assert forall|x: u128| x != u.id implies lookup(s2, x) == lookup(s, x) by {
            if s[0].id != x {
                assert(lookup(s2.drop_first(), x) == lookup(s.drop_first(), x));
            }
        }
    }
}

proof fn lemma_lookup_email_update(s: Seq<User>, k: int, u: User)
    requires
        unique_ids(s),
        0 <= k < s.len(),
        u.id == s[k].id,
        u.email@ == s[k].email@,
    ensures
        forall|e: Seq<char>|
            #![trigger lookup_email(s, e)]
            (lookup_email(s, e) matches Some(w) && w.id != u.id) ==> (lookup_email(
                s.update(k, u),
                e,
            ) matches Some(w2) && w2.id == (lookup_email(s, e)->0).id),
    decreases s.len(),
{
    let s2 = s.update(k, u);
    if k == 0 {
        assert forall|e: Seq<char>|
            #![trigger lookup_email(s, e)]
            lookup_email(s, e) matches Some(w) && w.id != u.id implies (lookup_email(
            s2,
            e,
        ) matches Some(w2) && w2.id == (lookup_email(s, e)->0).id) by {
            assert(s2[0].email@ == s[0].email@);
            assert(s2.drop_first() =~= s.drop_first());
            if s[0].email@ != e {
                assert(lookup_email(s2.drop_first(), e) == lookup_email(s.drop_first(), e));
            }
        }
    } else {
        assert(unique_ids(s.drop_first())) by {
            assert forall|i: int, j: int|
                0 <= i < j < s.drop_first().len() implies s.drop_first()[i].id
                != s.drop_first()[j].id by {
                assert(s.drop_first()[i] == s[i + 1]);
                assert(s.drop_first()[j] == s[j + 1]);
            }
        }
        assert(s.drop_first()[k - 1] == s[k]);
        lemma_lookup_email_update(s.drop_first(), k - 1, u);
        assert forall|e: Seq<char>|
            #![trigger lookup_email(s, e)]
            lookup_email(s, e) matches Some(w) && w.id != u.id implies (lookup_email(
            s2,
            e,
        ) matches Some(w2) && w2.id == (lookup_email(s, e)->0).id) by {
            assert(s2[0] == s[0]);
            assert(s2.drop_first() =~= s.drop_first().update(k - 1, u));
            if s[0].email@ != e {
                assert(lookup_email(s.drop_first(), e) matches Some(w) && w.id != u.id);
            }
        }
    }
}

} // verus!
