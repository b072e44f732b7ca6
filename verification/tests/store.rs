use password_manager::error::VaultError;
use password_manager::records::{AccountInfo, User};
use password_manager::store::{
    open_database, AccountRow, ClientRow, CredentialStore, Retrieve, Transfer,
};

fn client(client_id: u8, username: &str, password: &str) -> ClientRow {
    ClientRow { client_id, username: username.to_string(), password: password.to_string() }
}

fn row(account_id: u64, client_id: u8, name: &str, username: &str, password: &str) -> AccountRow {
    AccountRow {
        account_id,
        client_id,
        account_name: name.to_string(),
        account_username: username.to_string(),
        account_password: password.to_string(),
    }
}

fn draft(name: &str, username: &str, password: &str) -> AccountInfo {
    AccountInfo {
        account: name.to_string(),
        username: username.to_string(),
        password: password.to_string(),
        accountId: None,
    }
}

fn seeded() -> CredentialStore {
    open_database(vec![client(1, "alice", "pw1"), client(2, "bob", "pw2")], Vec::new()).unwrap()
}

fn user() -> User {
    User { client_id: None }
}

fn listing(store: &CredentialStore, owner: u8) -> Vec<(String, String, String, Option<u64>)> {
    user()
        .get_accounts(store, owner)
        .into_iter()
        .map(|a| (a.account, a.username, a.password, a.accountId))
        .collect()
}

fn entry(name: &str, username: &str, password: &str, id: u64) -> (String, String, String, Option<u64>) {
    (name.to_string(), username.to_string(), password.to_string(), Some(id))
}

fn refused(clients: Vec<ClientRow>, accounts: Vec<AccountRow>) -> bool {
    matches!(open_database(clients, accounts), Err(VaultError::ConnectionError))
}

#[test]
fn scenario_login_add_and_list() {
    let mut store = seeded();
    let session = user();
    assert_eq!(session.lookup_user(&store, "alice", "pw1"), Ok(1));
    assert_eq!(
        session.lookup_user(&store, "alice", "wrong"),
        Err(VaultError::AuthenticationFailed)
    );
    let added = AccountInfo::add_account(&mut store, draft("github", "alice_gh", "secret1"), &1);
    assert_eq!(added, Ok(1));
    assert_eq!(listing(&store, 1), vec![entry("github", "alice_gh", "secret1", 1)]);
    assert_eq!(listing(&store, 2), Vec::new());
}

#[test]
fn login_yields_the_id_of_the_matching_client() {
    let store = seeded();
    assert_eq!(user().lookup_user(&store, "bob", "pw2"), Ok(2));
    assert_eq!(user().lookup_user(&store, "alice", "pw1"), Ok(1));
}

#[test]
fn login_needs_both_fields_of_one_client() {
    let store = seeded();
    let failed = Err(VaultError::AuthenticationFailed);
    assert_eq!(user().lookup_user(&store, "alice", "pw2"), failed);
    assert_eq!(user().lookup_user(&store, "bob", "pw1"), failed);
    assert_eq!(user().lookup_user(&store, "carol", "pw1"), failed);
    assert_eq!(user().lookup_user(&store, "", ""), failed);
    assert_eq!(user().lookup_user(&store, "Alice", "pw1"), failed);
    assert_eq!(user().lookup_user(&store, "alice ", "pw1"), failed);
}

#[test]
fn any_changed_character_of_the_password_fails() {
    let store = open_database(vec![client(9, "dana", "S3cr3t!x")], Vec::new()).unwrap();
    assert_eq!(user().lookup_user(&store, "dana", "S3cr3t!x"), Ok(9));
    let password: Vec<char> = "S3cr3t!x".chars().collect();
    for at in 0..password.len() {
        for other in ['a', 'S', '!', '0', ' ', 'é'] {
            if password[at] == other {
                continue;
            }
            let mut changed = password.clone();
            changed[at] = other;
            let changed: String = changed.into_iter().collect();
            assert_eq!(
                user().lookup_user(&store, "dana", &changed),
                Err(VaultError::AuthenticationFailed),
                "{:?}",
                changed
            );
        }
    }
    assert_eq!(
        user().lookup_user(&store, "dana", "S3cr3t!"),
        Err(VaultError::AuthenticationFailed)
    );
    assert_eq!(
        user().lookup_user(&store, "dana", "S3cr3t!xx"),
        Err(VaultError::AuthenticationFailed)
    );
}

#[test]
fn login_leaves_the_session_alone() {
    let store = seeded();
    let session = User { client_id: Some(2) };
    assert_eq!(session.lookup_user(&store, "alice", "pw1"), Ok(1));
    assert_eq!(session.client_id, Some(2));
}

#[test]
fn login_on_an_empty_store_fails() {
    let store = open_database(Vec::new(), Vec::new()).unwrap();
    assert_eq!(user().lookup_user(&store, "alice", "pw1"), Err(VaultError::AuthenticationFailed));
}

#[test]
fn round_trip_appends_the_draft_with_its_id() {
    let mut store = seeded();
    assert_eq!(AccountInfo::add_account(&mut store, draft("github", "alice_gh", "s1"), &1), Ok(1));
    assert_eq!(AccountInfo::add_account(&mut store, draft("mail", "alice@m", "s2"), &1), Ok(2));
    assert_eq!(AccountInfo::add_account(&mut store, draft("github", "alice_gh", "s1"), &1), Ok(3));
    assert_eq!(
        listing(&store, 1),
        vec![
            entry("github", "alice_gh", "s1", 1),
            entry("mail", "alice@m", "s2", 2),
            entry("github", "alice_gh", "s1", 3),
        ]
    );
}

#[test]
fn accounts_of_one_client_never_show_for_another() {
    let mut store = seeded();
    assert_eq!(AccountInfo::add_account(&mut store, draft("github", "alice_gh", "s1"), &1), Ok(1));
    assert_eq!(AccountInfo::add_account(&mut store, draft("bank", "bob_b", "s2"), &2), Ok(2));
    assert_eq!(AccountInfo::add_account(&mut store, draft("mail", "alice@m", "s3"), &1), Ok(3));
    assert_eq!(
        listing(&store, 1),
        vec![entry("github", "alice_gh", "s1", 1), entry("mail", "alice@m", "s3", 3)]
    );
    assert_eq!(listing(&store, 2), vec![entry("bank", "bob_b", "s2", 2)]);
    assert_eq!(listing(&store, 3), Vec::new());
}

#[test]
fn adding_for_one_client_leaves_the_others_unchanged() {
    let mut store = open_database(
        vec![client(1, "alice", "pw1"), client(2, "bob", "pw2")],
        vec![row(4, 2, "bank", "bob_b", "s2")],
    )
    .unwrap();
    let before = listing(&store, 2);
    assert_eq!(AccountInfo::add_account(&mut store, draft("github", "alice_gh", "s1"), &1), Ok(5));
    assert_eq!(listing(&store, 2), before);
    assert!(listing(&store, 2).iter().all(|a| a.3 != Some(5)));
}

#[test]
fn the_id_carried_by_a_draft_is_not_looked_at() {
    let mut store = seeded();
    let mut entry_with_id = draft("github", "alice_gh", "s1");
    entry_with_id.accountId = Some(77);
    assert_eq!(AccountInfo::add_account(&mut store, entry_with_id, &1), Ok(1));
    assert_eq!(listing(&store, 1), vec![entry("github", "alice_gh", "s1", 1)]);
}

#[test]
fn the_next_id_follows_the_greatest_in_use() {
    let mut store = open_database(
        vec![client(1, "alice", "pw1")],
        vec![row(9, 1, "a", "u", "p"), row(5, 1, "b", "u", "p"), row(0, 1, "c", "u", "p")],
    )
    .unwrap();
    assert_eq!(AccountInfo::add_account(&mut store, draft("d", "u", "p"), &1), Ok(10));
    assert_eq!(AccountInfo::add_account(&mut store, draft("e", "u", "p"), &1), Ok(11));
    assert_eq!(
        listing(&store, 1).iter().map(|a| a.3).collect::<Vec<_>>(),
        vec![Some(9), Some(5), Some(0), Some(10), Some(11)]
    );
}

#[test]
fn an_empty_password_is_stored_as_it_is() {
    let mut store = seeded();
    assert_eq!(AccountInfo::add_account(&mut store, draft("github", "alice_gh", ""), &1), Ok(1));
    assert_eq!(listing(&store, 1), vec![entry("github", "alice_gh", "", 1)]);
}

#[test]
fn a_draft_without_site_or_user_is_refused() {
    let mut store = seeded();
    let refused = Err(VaultError::PersistenceError);
    assert_eq!(AccountInfo::add_account(&mut store, draft("", "alice_gh", "s1"), &1), refused);
    assert_eq!(AccountInfo::add_account(&mut store, draft("github", "", "s1"), &1), refused);
    assert_eq!(AccountInfo::add_account(&mut store, draft("", "", ""), &1), refused);
    assert_eq!(listing(&store, 1), Vec::new());
    assert_eq!(AccountInfo::add_account(&mut store, draft("github", "alice_gh", "s1"), &1), Ok(1));
}

#[test]
fn an_owner_that_does_not_exist_is_refused() {
    let mut store = seeded();
    assert_eq!(
        AccountInfo::add_account(&mut store, draft("github", "x", "s1"), &3),
        Err(VaultError::PersistenceError)
    );
    assert_eq!(
        AccountInfo::add_account(&mut store, draft("github", "x", "s1"), &0),
        Err(VaultError::PersistenceError)
    );
    assert_eq!(listing(&store, 3), Vec::new());
    assert_eq!(listing(&store, 0), Vec::new());
    assert_eq!(AccountInfo::add_account(&mut store, draft("github", "x", "s1"), &2), Ok(1));
}

#[test]
fn a_store_without_ids_left_refuses() {
    let mut store = open_database(
        vec![client(1, "alice", "pw1")],
        vec![row(u64::MAX, 1, "last", "u", "p")],
    )
    .unwrap();
    assert_eq!(
        AccountInfo::add_account(&mut store, draft("github", "alice_gh", "s1"), &1),
        Err(VaultError::PersistenceError)
    );
    assert_eq!(listing(&store, 1), vec![entry("last", "u", "p", u64::MAX)]);
}

#[test]
fn the_last_id_can_still_be_given() {
    let mut store = open_database(
        vec![client(1, "alice", "pw1")],
        vec![row(u64::MAX - 1, 1, "almost", "u", "p")],
    )
    .unwrap();
    assert_eq!(
        AccountInfo::add_account(&mut store, draft("github", "alice_gh", "s1"), &1),
        Ok(u64::MAX)
    );
}

#[test]
fn opening_keeps_the_rows_in_their_order() {
    let store = open_database(
        vec![client(7, "alice", "pw1"), client(3, "bob", "pw2")],
        vec![
            row(12, 3, "bank", "bob_b", "s2"),
            row(2, 7, "github", "alice_gh", "s1"),
            row(30, 3, "mail", "bob@m", "s3"),
        ],
    )
    .unwrap();
    assert_eq!(listing(&store, 7), vec![entry("github", "alice_gh", "s1", 2)]);
    assert_eq!(
        listing(&store, 3),
        vec![entry("bank", "bob_b", "s2", 12), entry("mail", "bob@m", "s3", 30)]
    );
    assert_eq!(user().lookup_user(&store, "bob", "pw2"), Ok(3));
}

#[test]
fn opening_twice_gives_the_same_store() {
    let open = || {
        open_database(
            vec![client(1, "alice", "pw1"), client(2, "bob", "pw2")],
            vec![row(1, 1, "github", "alice_gh", "s1")],
        )
        .unwrap()
    };
    let (first, second) = (open(), open());
    for owner in 0..=3 {
        assert_eq!(listing(&first, owner), listing(&second, owner));
    }
    assert_eq!(
        user().lookup_user(&first, "alice", "pw1"),
        user().lookup_user(&second, "alice", "pw1")
    );
}

#[test]
fn clients_that_share_a_name_cannot_be_opened() {
    assert!(refused(vec![client(1, "alice", "pw1"), client(2, "alice", "pw2")], Vec::new()));
    assert!(refused(
        vec![client(1, "alice", "pw1"), client(2, "bob", "pw2"), client(3, "alice", "pw1")],
        Vec::new()
    ));
}

#[test]
fn clients_that_share_an_id_cannot_be_opened() {
    assert!(refused(vec![client(1, "alice", "pw1"), client(1, "bob", "pw2")], Vec::new()));
}

#[test]
fn a_client_without_name_or_password_cannot_be_opened() {
    assert!(refused(vec![client(1, "", "pw1")], Vec::new()));
    assert!(refused(vec![client(1, "alice", "")], Vec::new()));
    assert!(refused(vec![client(1, "alice", "pw1"), client(2, "bob", "")], Vec::new()));
}

#[test]
fn an_account_without_owner_cannot_be_opened() {
    assert!(refused(vec![client(1, "alice", "pw1")], vec![row(1, 2, "github", "x", "s1")]));
    assert!(refused(Vec::new(), vec![row(1, 1, "github", "x", "s1")]));
}

#[test]
fn accounts_that_share_an_id_cannot_be_opened() {
    assert!(refused(
        vec![client(1, "alice", "pw1"), client(2, "bob", "pw2")],
        vec![row(1, 1, "github", "x", "s1"), row(1, 2, "bank", "y", "s2")]
    ));
}

#[test]
fn an_account_without_site_or_user_cannot_be_opened() {
    assert!(refused(vec![client(1, "alice", "pw1")], vec![row(1, 1, "", "x", "s1")]));
    assert!(refused(vec![client(1, "alice", "pw1")], vec![row(1, 1, "github", "", "s1")]));
}

#[test]
fn same_password_for_two_clients_is_in_order() {
    let store =
        open_database(vec![client(1, "alice", "same"), client(2, "bob", "same")], Vec::new())
            .unwrap();
    assert_eq!(user().lookup_user(&store, "alice", "same"), Ok(1));
    assert_eq!(user().lookup_user(&store, "bob", "same"), Ok(2));
}

#[test]
fn edit_and_delete_are_unsupported() {
    let mut store = seeded();
    assert_eq!(AccountInfo::add_account(&mut store, draft("github", "alice_gh", "s1"), &1), Ok(1));
    assert_eq!(
        AccountInfo::edit_account(&store, 1, draft("github", "other", "s2")),
        Err(VaultError::Unsupported)
    );
    assert_eq!(AccountInfo::delete_account(&store, 1), Err(VaultError::Unsupported));
    assert_eq!(AccountInfo::delete_account(&store, 99), Err(VaultError::Unsupported));
    assert_eq!(listing(&store, 1), vec![entry("github", "alice_gh", "s1", 1)]);
}

#[test]
fn a_client_with_the_id_zero_cannot_be_opened() {
    assert!(refused(vec![client(0, "alice", "pw1")], Vec::new()));
    assert!(refused(vec![client(1, "alice", "pw1"), client(0, "bob", "pw2")], Vec::new()));
}

#[test]
fn an_empty_session_stands_for_no_client() {
    let store = seeded();
    let session = user();
    assert_eq!(session.get_id(), 0);
    assert_eq!(listing(&store, session.get_id()), Vec::new());
    for (id, name, password) in [(1u8, "alice", "pw1"), (2u8, "bob", "pw2")] {
        assert_eq!(session.lookup_user(&store, name, password), Ok(id));
        assert!(id != session.get_id());
    }
}

#[test]
fn a_store_keeps_its_rules() {
    let mut store = seeded();
    store.keeps_rules();
    assert_eq!(AccountInfo::add_account(&mut store, draft("github", "alice_gh", "s1"), &1), Ok(1));
    store.keeps_rules();
    assert_eq!(listing(&store, 1), vec![entry("github", "alice_gh", "s1", 1)]);
}
