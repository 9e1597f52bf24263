use sr_exam::credential::{check_credential, judge, new_credential};
use sr_exam::error::ErrorKind;
use sr_exam::records::{CurrentUser, User, UserRow};
use sr_exam::remote::UsersQuery;
use sr_exam::session::{
    change_password, edit_role, get_current_user, install_credential, login, LoginKey, Session,
};
use sr_exam::store::LocalStore;
use sr_exam::sync::insert_users;

fn user(bn: &str, nim: &str, name: &str, role: &str, initial: Option<&str>) -> User {
    User {
        bn_number: bn.to_string(),
        nim: nim.to_string(),
        name: name.to_string(),
        major: "Computer Science".to_string(),
        role: role.to_string(),
        initial: initial.map(|s| s.to_string()),
    }
}

fn three_users() -> Vec<User> {
    vec![
        user("BN001", "2401", "Ani", "Student", None),
        user("BN002", "2402", "Budi", "Assistant", Some("BD23-1")),
        user("BN003", "", "Citra", "Exam Coordinator", Some("CT23-1")),
    ]
}

fn store_with_users() -> LocalStore {
    let mut store = LocalStore::new();
    let answer = UsersQuery { get_all_user: three_users() };
    assert_eq!(insert_users(&mut store, Some(answer)), Ok(()));
    store
}

fn store_with_credential(bn_number: &str, password: Option<String>) -> LocalStore {
    let rows = three_users()
        .into_iter()
        .map(|user| {
            let held = if user.bn_number == bn_number { password.clone() } else { None };
            UserRow { user, password: held }
        })
        .collect();
    LocalStore::from_tables(rows, vec![], vec![], vec![], vec![], vec![]).ok().unwrap()
}

fn hash_of(password: &str) -> String {
    bcrypt::hash(password, 4).unwrap()
}

fn sign_in(store: &LocalStore, session: &mut Session, name: &str, password: &str) -> Result<Option<LoginKey>, ErrorKind> {
    login(name.to_string(), password.to_string(), store, session)
}

#[test]
fn nobody_is_signed_in_at_first() {
    let session = Session::new();
    assert_eq!(get_current_user(&session), None);
}

#[test]
fn login_with_absent_password_accepts_anything() {
    let store = store_with_users();
    let mut session = Session::new();
    assert_eq!(sign_in(&store, &mut session, "2401", "anything"), Ok(Some(LoginKey::Nim)));
    assert_eq!(
        get_current_user(&session),
        Some(CurrentUser { user: user("BN001", "2401", "Ani", "Student", None) })
    );
}

#[test]
fn login_with_empty_password_accepts_anything() {
    let store = store_with_credential("BN001", Some(String::new()));
    let mut session = Session::new();
    assert_eq!(sign_in(&store, &mut session, "2401", "anything"), Ok(Some(LoginKey::Nim)));
    assert_eq!(
        get_current_user(&session),
        Some(CurrentUser { user: user("BN001", "2401", "Ani", "Student", None) })
    );
    assert_eq!(sign_in(&store, &mut session, "2401", ""), Ok(Some(LoginKey::Nim)));
}

#[test]
fn login_with_wrong_password_is_refused_and_session_stays() {
    let store = store_with_credential("BN001", Some(hash_of("secret")));
    let mut session = Session::new();
    assert_eq!(sign_in(&store, &mut session, "2401", "wrong"), Ok(None));
    assert_eq!(get_current_user(&session), None);
    assert_eq!(sign_in(&store, &mut session, "2402", "whatever"), Ok(Some(LoginKey::Nim)));
    let before = get_current_user(&session);
    assert_eq!(sign_in(&store, &mut session, "2401", "wrong"), Ok(None));
    assert_eq!(get_current_user(&session), before);
    assert_eq!(before.map(|c| c.user.bn_number), Some("BN002".to_string()));
}

#[test]
fn login_with_right_password_installs_the_user() {
    let store = store_with_credential("BN001", Some(hash_of("secret")));
    let mut session = Session::new();
    assert_eq!(sign_in(&store, &mut session, "2401", "secret"), Ok(Some(LoginKey::Nim)));
    assert_eq!(
        get_current_user(&session).map(|c| c.user.name),
        Some("Ani".to_string())
    );
}

#[test]
fn login_by_initial_reports_the_initial_key() {
    let store = store_with_users();
    let mut session = Session::new();
    assert_eq!(sign_in(&store, &mut session, "CT23-1", "x"), Ok(Some(LoginKey::Initial)));
    assert_eq!(
        get_current_user(&session).map(|c| c.user.bn_number),
        Some("BN003".to_string())
    );
    assert_eq!(sign_in(&store, &mut session, "BD23-1", "x"), Ok(Some(LoginKey::Initial)));
    assert_eq!(sign_in(&store, &mut session, "2402", "x"), Ok(Some(LoginKey::Nim)));
    assert_eq!(LoginKey::Nim.name(), "nim");
    assert_eq!(LoginKey::Initial.name(), "initial");
}

#[test]
fn login_with_unknown_handle_looks_like_a_wrong_password() {
    let store = store_with_credential("BN001", Some(hash_of("secret")));
    let mut session = Session::new();
    let unknown = sign_in(&store, &mut session, "9999", "secret");
    let wrong = sign_in(&store, &mut session, "2401", "Secret");
    assert_eq!(unknown, Ok(None));
    assert_eq!(unknown, wrong);
    assert_eq!(get_current_user(&session), None);
}

#[test]
fn login_against_unreadable_credential_fails_authentication() {
    let store = store_with_credential("BN001", Some("not a bcrypt hash".to_string()));
    let mut session = Session::new();
    assert_eq!(
        sign_in(&store, &mut session, "2401", "secret"),
        Err(ErrorKind::AuthenticationFailed)
    );
    assert_eq!(get_current_user(&session), None);
}

#[test]
fn first_answering_row_decides_a_shared_handle() {
    let mut store = LocalStore::new();
    let answer = UsersQuery {
        get_all_user: vec![
            user("BN001", "", "Ani", "Lecturer", Some("2402")),
            user("BN002", "2402", "Budi", "Student", None),
        ],
    };
    assert_eq!(insert_users(&mut store, Some(answer)), Ok(()));
    let mut session = Session::new();
    assert_eq!(sign_in(&store, &mut session, "2402", "x"), Ok(Some(LoginKey::Initial)));
    assert_eq!(
        get_current_user(&session).map(|c| c.user.bn_number),
        Some("BN001".to_string())
    );
}

#[test]
fn empty_new_password_is_a_validation_failure_whatever_the_old_one() {
    let mut store = store_with_credential("BN001", Some(hash_of("secret")));
    let before = store.users();
    let mut session = Session::new();
    assert_eq!(
        change_password("secret".to_string(), String::new(), &mut store, &session),
        Err(ErrorKind::ValidationFailed)
    );
    assert_eq!(sign_in(&store, &mut session, "2401", "secret"), Ok(Some(LoginKey::Nim)));
    assert_eq!(
        change_password("secret".to_string(), String::new(), &mut store, &session),
        Err(ErrorKind::ValidationFailed)
    );
    assert_eq!(
        change_password("wrong".to_string(), String::new(), &mut store, &session),
        Err(ErrorKind::ValidationFailed)
    );
    assert_eq!(
        change_password(String::new(), String::new(), &mut store, &session),
        Err(ErrorKind::ValidationFailed)
    );
    assert_eq!(store.users(), before);
}

#[test]
fn change_password_without_session_fails_authentication() {
    let mut store = store_with_users();
    let before = store.users();
    let session = Session::new();
    assert_eq!(
        change_password("old".to_string(), "new".to_string(), &mut store, &session),
        Err(ErrorKind::AuthenticationFailed)
    );
    assert_eq!(store.users(), before);
}

#[test]
fn change_password_with_wrong_old_password_changes_nothing() {
    let mut store = store_with_credential("BN001", Some(hash_of("secret")));
    let mut session = Session::new();
    assert_eq!(sign_in(&store, &mut session, "2401", "secret"), Ok(Some(LoginKey::Nim)));
    let before = store.users();
    assert_eq!(
        change_password("wrong".to_string(), "next".to_string(), &mut store, &session),
        Ok(false)
    );
    assert_eq!(store.users(), before);
}

#[test]
fn change_password_against_unreadable_credential_fails_authentication() {
    let mut session = Session::new();
    assert_eq!(sign_in(&store_with_users(), &mut session, "2401", "x"), Ok(Some(LoginKey::Nim)));
    let mut store = store_with_credential("BN001", Some("garbage".to_string()));
    let before = store.users();
    assert_eq!(
        change_password("x".to_string(), "next".to_string(), &mut store, &session),
        Err(ErrorKind::AuthenticationFailed)
    );
    assert_eq!(store.users(), before);
}

#[test]
fn first_password_is_set_without_checking_the_old_one() {
    let mut store = store_with_users();
    let mut session = Session::new();
    assert_eq!(sign_in(&store, &mut session, "2401", "x"), Ok(Some(LoginKey::Nim)));
    assert_eq!(
        change_password("never set".to_string(), "first".to_string(), &mut store, &session),
        Ok(true)
    );
    let rows = store.users();
    let stored = rows[0].password.clone().unwrap();
    assert!(!stored.is_empty());
    assert_ne!(stored, "first");
    assert_eq!(bcrypt::verify("first", &stored).ok(), Some(true));
    assert_eq!(bcrypt::verify("never set", &stored).ok(), Some(false));
    assert_eq!(rows[1].password, None);
    assert_eq!(rows[2].password, None);
    assert_eq!(rows[0].user, user("BN001", "2401", "Ani", "Student", None));
}

#[test]
fn changed_password_is_the_one_that_signs_in() {
    let mut store = store_with_credential("BN002", Some(hash_of("secret")));
    let mut session = Session::new();
    assert_eq!(sign_in(&store, &mut session, "BD23-1", "secret"), Ok(Some(LoginKey::Initial)));
    assert_eq!(
        change_password("secret".to_string(), "next".to_string(), &mut store, &session),
        Ok(true)
    );
    let mut other = Session::new();
    assert_eq!(sign_in(&store, &mut other, "2402", "secret"), Ok(None));
    assert_eq!(sign_in(&store, &mut other, "2402", "next"), Ok(Some(LoginKey::Nim)));
}

#[test]
fn credential_policy_by_cases() {
    assert_eq!(judge(&None, None), Ok(true));
    assert_eq!(judge(&None, Some(false)), Ok(true));
    assert_eq!(judge(&Some(String::new()), Some(false)), Ok(true));
    assert_eq!(judge(&Some("h".to_string()), Some(true)), Ok(true));
    assert_eq!(judge(&Some("h".to_string()), Some(false)), Ok(false));
    assert_eq!(judge(&Some("h".to_string()), None), Err(ErrorKind::AuthenticationFailed));
}

#[test]
fn credential_check_verifies_only_set_credentials() {
    let hash = hash_of("secret");
    assert_eq!(check_credential(&Some(hash.clone()), &"secret".to_string()), Ok(true));
    assert_eq!(check_credential(&Some(hash), &"Secret".to_string()), Ok(false));
    assert_eq!(check_credential(&None, &"secret".to_string()), Ok(true));
    assert_eq!(check_credential(&Some(String::new()), &"secret".to_string()), Ok(true));
    assert_eq!(
        check_credential(&Some("$2b$04$short".to_string()), &"secret".to_string()),
        Err(ErrorKind::AuthenticationFailed)
    );
}

#[test]
fn new_credential_is_a_salted_hash_of_the_password() {
    let a = new_credential(&"secret".to_string()).unwrap();
    assert_eq!(a.len(), 60);
    assert!(a.starts_with("$2b$12$"));
    assert_ne!(a, "secret");
    assert_eq!(check_credential(&Some(a), &"secret".to_string()), Ok(true));
}

#[test]
fn installing_a_credential_reaches_one_row_only() {
    let mut store = store_with_users();
    let r = install_credential(&mut store, &"BN002".to_string(), Some("hash".to_string()));
    assert_eq!(r, Ok(true));
    let rows = store.users();
    assert_eq!(rows[0].password, None);
    assert_eq!(rows[1].password, Some("hash".to_string()));
    assert_eq!(rows[2].password, None);
    assert_eq!(rows[1].user, user("BN002", "2402", "Budi", "Assistant", Some("BD23-1")));
    let before = store.users();
    let r = install_credential(&mut store, &"BN002".to_string(), None);
    assert_eq!(r, Err(ErrorKind::StoreUnavailable));
    assert_eq!(store.users(), before);
    let r = install_credential(&mut store, &"BN404".to_string(), Some("other".to_string()));
    assert_eq!(r, Ok(true));
    assert_eq!(store.users(), before);
}

#[test]
fn edit_role_changes_only_the_role_of_the_user_named() {
    let mut store = store_with_credential("BN002", Some("kept".to_string()));
    assert_eq!(edit_role("BN002".to_string(), "Subject Dev".to_string(), &mut store), Ok(()));
    let rows = store.users();
    assert_eq!(rows[1].user, user("BN002", "2402", "Budi", "Subject Dev", Some("BD23-1")));
    assert_eq!(rows[1].password, Some("kept".to_string()));
    assert_eq!(rows[0].user.role, "Student");
    assert_eq!(rows[2].user.role, "Exam Coordinator");
}

#[test]
fn edit_role_of_unknown_user_succeeds_and_changes_nothing() {
    let mut store = store_with_users();
    let before = store.users();
    assert_eq!(edit_role("BN404".to_string(), "Admin".to_string(), &mut store), Ok(()));
    assert_eq!(store.users(), before);
}


#[test]
fn empty_handle_answers_to_nobody() {
    let store = store_with_users();
    let mut session = Session::new();
    assert_eq!(sign_in(&store, &mut session, "", "anything"), Ok(None));
    assert_eq!(get_current_user(&session), None);
    assert_eq!(store.find_handle(&String::new()), None);
}

#[test]
fn changing_a_password_leaves_a_user_with_the_same_initial_alone() {
    let rows = vec![
        UserRow { user: user("BN1", "2301", "Ani", "Student", Some("AB")), password: None },
        UserRow {
            user: user("BN2", "2302", "Budi", "Student", Some("AB")),
            password: Some(hash_of("theirs")),
        },
        UserRow { user: user("BN3", "", "Citra", "Lecturer", Some("AB")), password: None },
    ];
    let mut store =
        LocalStore::from_tables(rows, vec![], vec![], vec![], vec![], vec![]).ok().unwrap();
    let before = store.users();
    let mut session = Session::new();
    assert_eq!(sign_in(&store, &mut session, "2301", "x"), Ok(Some(LoginKey::Nim)));
    assert_eq!(
        change_password("x".to_string(), "mine".to_string(), &mut store, &session),
        Ok(true)
    );
    let after = store.users();
    assert_eq!(after[1], before[1]);
    assert_eq!(after[2], before[2]);
    assert_eq!(after[0].user, before[0].user);
    let stored = after[0].password.clone().unwrap();
    assert_eq!(bcrypt::verify("mine", &stored).ok(), Some(true));
    let mut other = Session::new();
    assert_eq!(sign_in(&store, &mut other, "2302", "theirs"), Ok(Some(LoginKey::Nim)));
    assert_eq!(sign_in(&store, &mut other, "2302", "mine"), Ok(None));
}

#[test]
fn old_password_is_held_against_the_operators_own_row() {
    let rows = vec![
        UserRow {
            user: user("BN1", "", "Ani", "Lecturer", Some("AB")),
            password: Some(hash_of("first")),
        },
        UserRow {
            user: user("BN2", "2302", "Budi", "Student", Some("AB")),
            password: Some(hash_of("second")),
        },
    ];
    let mut store =
        LocalStore::from_tables(rows, vec![], vec![], vec![], vec![], vec![]).ok().unwrap();
    let before = store.users();
    let mut session = Session::new();
    assert_eq!(sign_in(&store, &mut session, "2302", "second"), Ok(Some(LoginKey::Nim)));
    assert_eq!(
        change_password("first".to_string(), "next".to_string(), &mut store, &session),
        Ok(false)
    );
    assert_eq!(store.users(), before);
    assert_eq!(
        change_password("second".to_string(), "next".to_string(), &mut store, &session),
        Ok(true)
    );
    let after = store.users();
    assert_eq!(after[0], before[0]);
    assert_ne!(after[1].password, before[1].password);
}
