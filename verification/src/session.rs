//! The session guard: at most one operator is signed in at a time.
//!
//! The session is a value that its owner hands to each operation. Signing
//! in installs an operator; nothing here signs one out. Changing the
//! password needs a session; changing a role does not, and callers are
//! expected to have authorised it.

use vstd::prelude::*;
use crate::credential::{
    check_credential, credential_absent, credential_accepts, new_credential,
};
use crate::error::ErrorKind;
use crate::records::{
    clone_opt, key_fn, opt_text, CurrentUser, Text, UserRow, UserRowView, UserView,
};
use crate::store::{answering, with_credential, with_role, LocalStore, StoreView};
use crate::table::{first_where, keyed, lemma_first_where};

verus! {

/// The key by which a sign-in handle found its user.
#[derive(Clone, Copy, Debug, PartialEq, Eq, Structural)]
pub enum LoginKey {
    Nim,
    Initial,
}

impl LoginKey {
    /// The name of the key: `"nim"` or `"initial"`.
    pub fn name(&self) -> (s: &'static str)
        ensures
            s@ == (match self {
                LoginKey::Nim => "nim"@,
                LoginKey::Initial => "initial"@,
            }),
    {
        match self {
            LoginKey::Nim => "nim",
            LoginKey::Initial => "initial",
        }
    }
}

/// The operator who is signed in, if any.
pub struct Session {
    current: Option<CurrentUser>,
}

impl View for Session {
    type V = Option<UserView>;

    closed spec fn view(&self) -> Option<UserView> {
        match self.current {
            Some(operator) => Some(operator@),
            None => None,
        }
    }
}

impl Clone for Session {
    /// A copy of the session as it is now, for a reader that must not keep
    /// the live one waiting.
    fn clone(&self) -> (s: Self)
        ensures
            s@ == self@,
    {
        match &self.current {
            Some(operator) => Session { current: Some(operator.clone()) },
            None => Session { current: None },
        }
    }
}

impl Session {
    /// A session with nobody signed in.
    pub fn new() -> (s: Self)
        ensures
            s@ is None,
    {
        Session { current: None }
    }
}

/// The operator who is signed in, if any.
pub fn get_current_user(session: &Session) -> (operator: Option<CurrentUser>)
    ensures
        match operator {
            Some(o) => session@ == Some(o@),
            None => session@ is None,
        },
{
    match &session.current {
        Some(o) => Some(o.clone()),
        None => None,
    }
}

/// The key by which `handle` found the row: the student number where it
/// is the handle, the initial otherwise.
pub open spec fn key_matched(row: UserRowView, handle: Text) -> LoginKey {
    if row.user.nim == handle {
        LoginKey::Nim
    } else {
        LoginKey::Initial
    }
}

/// The session and the answer after an attempt to sign in.
///
/// The first row that answers to the handle decides. Where it lets the
/// password through, its user becomes the operator and the key that
/// matched is the answer. An unknown handle and a wrong password both
/// answer `Ok(None)`; a credential that cannot be read is a failure of
/// authentication. In every case but the first the session stays as it
/// was.
pub open spec fn login_outcome(
    users: Seq<UserRowView>,
    signed_in: Option<UserView>,
    name: Text,
    password: Text,
) -> (Option<UserView>, Result<Option<LoginKey>, ErrorKind>) {
    match first_where(users, answering(name)) {
        Some(i) => match credential_accepts(users[i].password, password) {
            Ok(true) => (Some(users[i].user), Ok(Some(key_matched(users[i], name)))),
            Ok(false) => (signed_in, Ok(None)),
            Err(e) => (signed_in, Err(e)),
        },
        None => (signed_in, Ok(None)),
    }
}

/// Signs an operator in.
///
/// The handle `name` is looked for among student numbers and initials, and
/// the first row that answers decides; no row answers to an empty handle.
/// Where that row lets `password` through, its user becomes the operator
/// and the key that matched is returned. An unknown handle and a wrong
/// password both give `Ok(None)`, so that the answer does not tell which
/// handles exist.
pub fn login(name: String, password: String, store: &LocalStore, session: &mut Session) -> (r:
    Result<Option<LoginKey>, ErrorKind>)
    ensures
        (final(session)@, r) == login_outcome(store@.users, old(session)@, name@, password@),
{
    match store.find_handle(&name) {
        None => Ok(None),
        Some(at) => {
            let row = store.user_row(at);
            match check_credential(&row.password, &password) {
                Ok(true) => {
                    let key = if row.user.nim == name {
                        LoginKey::Nim
                    } else {
                        LoginKey::Initial
                    };
                    session.current = Some(CurrentUser { user: row.user.clone() });
                    Ok(Some(key))
                },
                Ok(false) => Ok(None),
                Err(e) => Err(e),
            }
        },
    }
}

/// The credential stored for an operator: that of the operator's own row,
/// which is the row with the operator's `bn_number`, and none where the
/// table has no such row.
pub open spec fn stored_credential(users: Seq<UserRowView>, operator: UserView) -> Option<Text> {
    match first_where(users, keyed(key_fn::<UserRow>(), operator.bn_number)) {
        Some(i) => users[i].password,
        None => None,
    }
}

/// The store and the answer after a request to change the password, where
/// `hashed` is what hashing the new password gave, if it came to that.
///
/// An empty new password is refused before anything else is looked at.
/// Then a session is asked for. Then the old password is held against the
/// credential stored for the operator, which lets it through unseen where
/// none has been set. Only then does the hash matter: the operator's own
/// row takes it, no other row does, and where there is no hash nothing is
/// written.
pub open spec fn password_changed(
    s: StoreView,
    signed_in: Option<UserView>,
    old_password: Text,
    new_password: Text,
    hashed: Option<Text>,
) -> (StoreView, Result<bool, ErrorKind>) {
    if new_password.len() == 0 {
        (s, Err(ErrorKind::ValidationFailed))
    } else {
        match signed_in {
            Some(operator) => match credential_accepts(
                stored_credential(s.users, operator),
                old_password,
            ) {
                Ok(true) => match hashed {
                    Some(hash) => (
                        StoreView {
                            users: with_credential(s.users, operator.bn_number, hash),
                            ..s
                        },
                        Ok(true),
                    ),
                    None => (s, Err(ErrorKind::StoreUnavailable)),
                },
                Ok(false) => (s, Ok(false)),
                Err(e) => (s, Err(e)),
            },
            None => (s, Err(ErrorKind::AuthenticationFailed)),
        }
    }
}

/// A change of `before` into `after` was the operator's own: the table
/// has the rows it had, the row of every other user is as it was, and the
/// operator's row differs in the credential at most. With nobody signed in
/// no row differs at all.
pub open spec fn only_credential_of(
    before: Seq<UserRowView>,
    after: Seq<UserRowView>,
    signed_in: Option<UserView>,
) -> bool {
    &&& after.len() == before.len()
    &&& forall|j: int|
        0 <= j < before.len() ==> (#[trigger] after[j]).user == before[j].user && (after[j].password
            != before[j].password ==> signed_in is Some && before[j].user.bn_number
            == signed_in->0.bn_number)
}

/// What holds of whatever hashing `password` gave: a hash is a credential
/// that is set and that accepts `password`.
pub open spec fn hashed_from(hashed: Option<Text>, password: Text) -> bool {
    hashed matches Some(hash) ==> !credential_absent(Some(hash)) && credential_accepts(
        Some(hash),
        password,
    ) == Ok::<bool, ErrorKind>(true)
}

/// Stores the outcome of hashing a new password for the user whose
/// `bn_number` is given. With a hash, that user's row takes it, no other
/// row is touched, and the change is reported as made. Without one the
/// store could not be given a credential and is left as it was.
pub fn install_credential(store: &mut LocalStore, bn_number: &String, hashed: Option<String>) -> (r:
    Result<bool, ErrorKind>)
    requires
        old(store).wf(),
    ensures
        final(store).wf(),
        match hashed {
            Some(hash) => r == Ok::<bool, ErrorKind>(true) && final(store)@ == (StoreView {
                users: with_credential(old(store)@.users, bn_number@, hash@),
                ..old(store)@
            }),
            None => r == Err::<bool, ErrorKind>(ErrorKind::StoreUnavailable) && final(store)@
                == old(store)@,
        },
{
    match hashed {
        Some(hash) => {
            store.set_credential_of(bn_number, &hash);
            Ok(true)
        },
        None => Err(ErrorKind::StoreUnavailable),
    }
}

/// Changes the password of the operator who is signed in.
///
/// An empty new password is refused as `ValidationFailed` before anything
/// else is looked at. Without a session the request fails as
/// `AuthenticationFailed`. Otherwise the old password is held against the
/// credential stored in the operator's own row, the row with the
/// operator's `bn_number`: a mismatch gives `Ok(false)`, a credential that
/// cannot be read gives `AuthenticationFailed`. Where the old password is
/// let through, the new one is hashed and the hash stored in that row;
/// `Ok(true)` reports that. The hash is salted at random, so the contract
/// says what holds of whichever hash was made: it is a set credential that
/// accepts the new password. A password change is the operator's own:
/// whatever the result, the row of every other user is as it was, and the
/// operator's row differs in the credential at most. Unless `Ok(true)` is
/// returned the store is left as it was.
pub fn change_password(
    old_password: String,
    new_password: String,
    store: &mut LocalStore,
    session: &Session,
) -> (r: Result<bool, ErrorKind>)
    requires
        old(store).wf(),
    ensures
        final(store).wf(),
        exists|hashed: Option<Text>|
            hashed_from(hashed, new_password@) && (final(store)@, r) == #[trigger] password_changed(
                old(store)@,
                session@,
                old_password@,
                new_password@,
                hashed,
            ),
        new_password@.len() == 0 ==> r == Err::<bool, ErrorKind>(ErrorKind::ValidationFailed),
        r != Ok::<bool, ErrorKind>(true) ==> final(store)@ == old(store)@,
        final(store)@ == (StoreView { users: final(store)@.users, ..old(store)@ }),
        only_credential_of(old(store)@.users, final(store)@.users, session@),
{
    let ghost unhashed: Option<Text> = None;
    if new_password.as_str().is_empty() {
        assert((store@, Err::<bool, ErrorKind>(ErrorKind::ValidationFailed)) == password_changed(
            old(store)@,
            session@,
            old_password@,
            new_password@,
            unhashed,
        ));
        return Err(ErrorKind::ValidationFailed);
    }
    let operator = match &session.current {
        Some(o) => o,
        None => {
            assert((store@, Err::<bool, ErrorKind>(ErrorKind::AuthenticationFailed))
                == password_changed(
                old(store)@,
                session@,
                old_password@,
                new_password@,
                unhashed,
            ));
            return Err(ErrorKind::AuthenticationFailed);
        },
    };
    let bn_number = &operator.user.bn_number;
    let held = match store.find_user(bn_number) {
        Some(at) => clone_opt(&store.user_row(at).password),
        None => None,
    };
    assert(opt_text(held) == stored_credential(store@.users, session@->0));
    match check_credential(&held, &old_password) {
        Ok(true) => {
            let hashed = new_credential(&new_password);
            let bn_number = bn_number.clone();
            let r = install_credential(store, &bn_number, hashed);
            assert((store@, r) == password_changed(
                old(store)@,
                session@,
                old_password@,
                new_password@,
                opt_text(hashed),
            ));
            r
        },
        Ok(false) => {
            assert((store@, Ok::<bool, ErrorKind>(false)) == password_changed(
                old(store)@,
                session@,
                old_password@,
                new_password@,
                unhashed,
            ));
            Ok(false)
        },
        Err(e) => {
            assert((store@, Err::<bool, ErrorKind>(e)) == password_changed(
                old(store)@,
                session@,
                old_password@,
                new_password@,
                unhashed,
            ));
            Err(e)
        },
    }
}

/// Login acceptance: where the row that answers has no credential set,
/// every password signs its user in.
pub proof fn lemma_login_without_credential(
    users: Seq<UserRowView>,
    signed_in: Option<UserView>,
    name: Text,
    password: Text,
)
    requires
        first_where(users, answering(name)) matches Some(i) && credential_absent(
            users[i].password,
        ),
    ensures
        login_outcome(users, signed_in, name, password).0 == Some(
            users[first_where(users, answering(name))->0].user,
        ),
        login_outcome(users, signed_in, name, password).1 matches Ok(Some(_)),
{
}

/// Login rejection: an attempt that signs nobody in leaves the session as
/// it was, and an attempt that signs somebody in installs a user of the
/// table who answers to the handle.
pub proof fn lemma_login_installs_or_keeps(
    users: Seq<UserRowView>,
    signed_in: Option<UserView>,
    name: Text,
    password: Text,
)
    ensures
        match login_outcome(users, signed_in, name, password).1 {
            Ok(Some(_)) => exists|i: int|
                0 <= i < users.len() && answering(name)(#[trigger] users[i]) && login_outcome(
                    users,
                    signed_in,
                    name,
                    password,
                ).0 == Some(users[i].user),
            _ => login_outcome(users, signed_in, name, password).0 == signed_in,
        },
{
    lemma_first_where(users, answering(name));
}

/// Password-change validation: an empty new password fails as
/// `ValidationFailed` and changes nothing, whoever is signed in, whatever
/// the old password is and whatever is stored.
pub proof fn lemma_empty_new_password_fails(
    s: StoreView,
    signed_in: Option<UserView>,
    old_password: Text,
    new_password: Text,
    hashed: Option<Text>,
)
    requires
        new_password.len() == 0,
    ensures
        password_changed(s, signed_in, old_password, new_password, hashed) == (
            s,
            Err::<bool, ErrorKind>(ErrorKind::ValidationFailed),
        ),
{
}

/// A password change is the operator's own: whatever is asked and
/// whatever comes of it, no table but `users` changes, the row of every
/// other user is as it was, their credential too, also where they share a
/// student number or an initial with the operator, and the operator's row
/// differs in the credential at most.
pub proof fn lemma_password_change_is_own(
    s: StoreView,
    signed_in: Option<UserView>,
    old_password: Text,
    new_password: Text,
    hashed: Option<Text>,
)
    ensures
        password_changed(s, signed_in, old_password, new_password, hashed).0 == (StoreView {
            users: password_changed(s, signed_in, old_password, new_password, hashed).0.users,
            ..s
        }),
        only_credential_of(
            s.users,
            password_changed(s, signed_in, old_password, new_password, hashed).0.users,
            signed_in,
        ),
{
}

/// A changed password is the one that signs in: once a request to change
/// the password has been granted, a handle that finds the operator's own
/// row signs the operator in with the new password.
pub proof fn lemma_changed_password_signs_in(
    s: StoreView,
    operator: UserView,
    old_password: Text,
    new_password: Text,
    hashed: Option<Text>,
    handle: Text,
)
    requires
        hashed_from(hashed, new_password),
        password_changed(s, Some(operator), old_password, new_password, hashed).1 == Ok::<
            bool,
            ErrorKind,
        >(true),
        first_where(
            password_changed(s, Some(operator), old_password, new_password, hashed).0.users,
            answering(handle),
        ) matches Some(i) && s.users[i].user.bn_number == operator.bn_number,
    ensures
        login_outcome(
            password_changed(s, Some(operator), old_password, new_password, hashed).0.users,
            None,
            handle,
            new_password,
        ).1 matches Ok(Some(_)),
        login_outcome(
            password_changed(s, Some(operator), old_password, new_password, hashed).0.users,
            None,
            handle,
            new_password,
        ).0 matches Some(user) && user.bn_number == operator.bn_number,
{
    let after = password_changed(s, Some(operator), old_password, new_password, hashed).0.users;
    lemma_first_where(after, answering(handle));
}

/// Gives the user whose `bn_number` is given the role `new_role`. No
/// session is asked for. Where there is no such user nothing changes; the
/// request succeeds either way.
pub fn edit_role(bn_number: String, new_role: String, store: &mut LocalStore) -> (r: Result<
    (),
    ErrorKind,
>)
    requires
        old(store).wf(),
    ensures
        final(store).wf(),
        r is Ok,
        final(store)@ == (StoreView {
            users: with_role(old(store)@.users, bn_number@, new_role@),
            ..old(store)@
        }),
{
    store.set_role(&bn_number, &new_role);
    Ok(())
}

} // verus!
