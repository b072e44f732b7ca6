//! The credential store: an image of the clients and accounts tables that
//! keeps their rules, the login of a client, and the vault of accounts that
//! each client owns.

use crate::error::VaultError;
use crate::model::{
    accounts_wf, client_listed, clients_wf, highest_id, owned_accounts, AccountRowView,
    ClientRowView, StoreView,
};
use crate::records::{AccountInfo, User};
use vstd::prelude::*;

verus! {

/// A row of the clients table.
pub struct ClientRow {
    pub client_id: u8,
    pub username: String,
    pub password: String,
}

impl View for ClientRow {
    type V = ClientRowView;

    open spec fn view(&self) -> ClientRowView {
        ClientRowView {
            client_id: self.client_id,
            username: self.username@,
            password: self.password@,
        }
    }
}

impl DeepView for ClientRow {
    type V = ClientRowView;

    open spec fn deep_view(&self) -> ClientRowView {
        self@
    }
}

/// A row of the accounts table.
pub struct AccountRow {
    pub account_id: u64,
    pub client_id: u8,
    pub account_name: String,
    pub account_username: String,
    pub account_password: String,
}

impl View for AccountRow {
    type V = AccountRowView;

    open spec fn view(&self) -> AccountRowView {
        AccountRowView {
            account_id: self.account_id,
            client_id: self.client_id,
            account_name: self.account_name@,
            account_username: self.account_username@,
            account_password: self.account_password@,
        }
    }
}

impl DeepView for AccountRow {
    type V = AccountRowView;

    open spec fn deep_view(&self) -> AccountRowView {
        self@
    }
}

/// The tables that the given rows make up.
pub open spec fn tables_of(clients: Seq<ClientRowView>, accounts: Seq<AccountRowView>) -> StoreView {
    StoreView { clients, accounts }
}

/// The image of the two tables. A value of this type always keeps the
/// tables' rules: `self@.wf()`.
pub struct CredentialStore {
    clients: Vec<ClientRow>,
    accounts: Vec<AccountRow>,
}

impl View for CredentialStore {
    type V = StoreView;

    closed spec fn view(&self) -> StoreView {
        tables_of(self.clients.deep_view(), self.accounts.deep_view())
    }
}

impl CredentialStore {
    #[verifier::type_invariant]
    spec fn well_formed(self) -> bool {
        self@.wf()
    }

    /// Every store keeps the tables' rules: the call tells so of the one
    /// at hand, and does nothing else.
    pub fn keeps_rules(&self)
        ensures
            self@.wf(),
    {
        proof {
            use_type_invariant(self);
        }
    }
}

/// Whether one of `clients` carries the identifier `id`.
fn client_exists(clients: &Vec<ClientRow>, id: u8) -> (found: bool)
    ensures
        found == client_listed(clients.deep_view(), id),
{
    let ghost rows = clients.deep_view();
    let mut i: usize = 0;
    while i < clients.len()
        invariant
            i <= clients.len(),
            rows == clients.deep_view(),
            rows.len() == clients.len(),
            forall|k: int| 0 <= k < i ==> (#[trigger] rows[k]).client_id != id,
        decreases clients.len() - i,
    {
        if clients[i].client_id == id {
            assert(rows[i as int].client_id == id);
            return true;
        }
        i = i + 1;
    }
    false
}

/// Whether the rows of the clients table keep its rules.
fn clients_valid(clients: &Vec<ClientRow>) -> (ok: bool)
    ensures
        ok == clients_wf(clients.deep_view()),
{
    let ghost rows = clients.deep_view();
    let mut j: usize = 0;
    while j < clients.len()
        invariant
            j <= clients.len(),
            rows == clients.deep_view(),
            rows.len() == clients.len(),
            forall|k: int|
                0 <= k < j ==> (#[trigger] rows[k]).client_id != 0 && rows[k].username.len() > 0
                    && rows[k].password.len() > 0,
            forall|a: int, b: int|
                0 <= a < b < j ==> (#[trigger] rows[a]).client_id != (#[trigger] rows[b]).client_id
                    && rows[a].username != rows[b].username,
        decreases clients.len() - j,
    {
        if clients[j].client_id == 0 || clients[j].username.as_str().is_empty()
            || clients[j].password.as_str().is_empty() {
            assert(rows[j as int].client_id == 0 || rows[j as int].username.len() == 0
                || rows[j as int].password.len() == 0);
            return false;
        }
        let mut i: usize = 0;
        while i < j
            invariant
                i <= j < clients.len(),
                rows == clients.deep_view(),
                rows.len() == clients.len(),
                forall|a: int|
                    0 <= a < i ==> (#[trigger] rows[a]).client_id != rows[j as int].client_id
                        && rows[a].username != rows[j as int].username,
            decreases j - i,
        {
            if clients[i].client_id == clients[j].client_id || clients[i].username
                == clients[j].username {
                assert(rows[i as int].client_id == rows[j as int].client_id
                    || rows[i as int].username == rows[j as int].username);
                return false;
            }
            i = i + 1;
        }
        j = j + 1;
    }
    true
}

/// Whether the rows of the accounts table keep its rules, beside the
/// clients that own them.
fn accounts_valid(clients: &Vec<ClientRow>, accounts: &Vec<AccountRow>) -> (ok: bool)
    ensures
        ok == accounts_wf(clients.deep_view(), accounts.deep_view()),
{
    let ghost owners = clients.deep_view();
    let ghost rows = accounts.deep_view();
    let mut j: usize = 0;
    while j < accounts.len()
        invariant
            j <= accounts.len(),
            rows == accounts.deep_view(),
            rows.len() == accounts.len(),
            owners == clients.deep_view(),
            forall|k: int|
                0 <= k < j ==> (#[trigger] rows[k]).account_name.len() > 0
                    && rows[k].account_username.len() > 0 && client_listed(
                    owners,
                    rows[k].client_id,
                ),
            forall|a: int, b: int|
                0 <= a < b < j ==> (#[trigger] rows[a]).account_id != (
                #[trigger] rows[b]).account_id,
        decreases accounts.len() - j,
    {
        let row = &accounts[j];
        assert(row@ == rows[j as int]);
        if row.account_name.as_str().is_empty() || row.account_username.as_str().is_empty()
            || !client_exists(clients, row.client_id) {
            assert(!(rows[j as int].account_name.len() > 0 && rows[j as int].account_username.len()
                > 0 && client_listed(owners, rows[j as int].client_id)));
            return false;
        }
        let mut i: usize = 0;
        while i < j
            invariant
                i <= j < accounts.len(),
                rows == accounts.deep_view(),
                rows.len() == accounts.len(),
                forall|a: int|
                    0 <= a < i ==> (#[trigger] rows[a]).account_id != rows[j as int].account_id,
            decreases j - i,
        {
            if accounts[i].account_id == accounts[j].account_id {
                assert(rows[i as int].account_id == rows[j as int].account_id);
                return false;
            }
            i = i + 1;
        }
        j = j + 1;
    }
    true
}

/// Opens the store on the rows read from its two tables. The rows must keep
/// the tables' rules; rows that break one cannot be opened, and the failure
/// is a `ConnectionError`. Opening the same rows again gives the same
/// store.
pub fn open_database(clients: Vec<ClientRow>, accounts: Vec<AccountRow>) -> (opened: Result<
    CredentialStore,
    VaultError,
>)
    ensures
        match opened {
            Ok(store) => store@ == tables_of(clients.deep_view(), accounts.deep_view())
                && store@.wf(),
            Err(e) => e == VaultError::ConnectionError && !tables_of(
                clients.deep_view(),
                accounts.deep_view(),
            ).wf(),
        },
{
    let ghost tables = tables_of(clients.deep_view(), accounts.deep_view());
    if clients_valid(&clients) && accounts_valid(&clients, &accounts) {
        let store = CredentialStore { clients, accounts };
        assert(store@ == tables);
        Ok(store)
    } else {
        Err(VaultError::ConnectionError)
    }
}

/// The greatest identifier among `accounts`, and 0 where there is none.
fn highest_account_id(accounts: &Vec<AccountRow>) -> (highest: u64)
    ensures
        highest == highest_id(accounts.deep_view()),
{
    let ghost rows = accounts.deep_view();
    let mut highest: u64 = 0;
    let mut i: usize = 0;
    while i < accounts.len()
        invariant
            i <= accounts.len(),
            rows == accounts.deep_view(),
            rows.len() == accounts.len(),
            highest == highest_id(rows.take(i as int)),
        decreases accounts.len() - i,
    {
        assert(rows.take(i + 1).drop_last() == rows.take(i as int));
        if accounts[i].account_id > highest {
            highest = accounts[i].account_id;
        }
        i = i + 1;
    }
    assert(rows.take(i as int) == rows);
    highest
}

/// What the vault reads: the login of a client, the session, and the
/// accounts that a client owns.
pub trait Retrieve {
    fn lookup_user(
        &self,
        store: &CredentialStore,
        username_input: &str,
        password_input: &str,
    ) -> Result<u8, VaultError>;

    fn set_client_id(&mut self, id: Option<u8>);

    fn get_id(&self) -> u8;

    fn get_accounts(&self, store: &CredentialStore, client_id: u8) -> Vec<AccountInfo>;
}

impl Retrieve for User {
    /// Looks for the client who carries exactly this name and this
    /// password, and yields the client's identifier. No client, or a client
    /// with another password, gives `AuthenticationFailed`; which of the
    /// two it was is not told. The session is left as it is: the caller
    /// commits it.
    fn lookup_user(
        &self,
        store: &CredentialStore,
        username_input: &str,
        password_input: &str,
    ) -> (found: Result<u8, VaultError>)
        ensures
            found == match store@.login(username_input@, password_input@) {
                Some(id) => Ok::<u8, VaultError>(id),
                None => Err::<u8, VaultError>(VaultError::AuthenticationFailed),
            },
            found matches Ok(id) ==> store@.has_client(id),
    {
        proof {
            use_type_invariant(store);
        }
        let username = String::from_str(username_input);
        let password = String::from_str(password_input);
        let ghost rows = store@.clients;
        let mut i: usize = 0;
        while i < store.clients.len()
            invariant
                i <= store.clients.len(),
                store@.wf(),
                rows == store.clients.deep_view(),
                rows == store@.clients,
                rows.len() == store.clients.len(),
                username@ == username_input@,
                password@ == password_input@,
                forall|k: int| 0 <= k < i ==> !store@.is_login(k, username@, password@),
            decreases store.clients.len() - i,
        {
            let row = &store.clients[i];
            assert(row@ == rows[i as int]);
            if row.username == username && row.password == password {
                proof {
                    assert(store@.is_login(i as int, username@, password@));
                    store@.lemma_login_correct(username@, password@);
                }
                return Ok(row.client_id);
            }
            i = i + 1;
        }
        Err(VaultError::AuthenticationFailed)
    }

    /// Records who is logged in, or with `None` that nobody is. What was
    /// recorded before is overwritten.
    fn set_client_id(&mut self, id: Option<u8>)
        ensures
            final(self).client_id == id,
    {
        self.client_id = id;
    }

    /// The identifier of the client who is logged in, and 0 where nobody
    /// is: no client of any store carries the identifier 0.
    fn get_id(&self) -> (id: u8)
        ensures
            id == self.session_id(),
    {
        match self.client_id {
            Some(value) => value,
            None => 0,
        }
    }

    /// The accounts that `client_id` owns, each with its identifier, in the
    /// order in which they were stored. A client without accounts, and an
    /// identifier that no client has, give an empty list.
    fn get_accounts(&self, store: &CredentialStore, client_id: u8) -> (accounts: Vec<AccountInfo>)
        ensures
            accounts.deep_view() == store@.accounts_of(client_id),
    {
        let ghost rows = store@.accounts;
        let mut accounts: Vec<AccountInfo> = Vec::new();
        let mut i: usize = 0;
        assert(rows.take(0) == Seq::<AccountRowView>::empty());
        while i < store.accounts.len()
            invariant
                i <= store.accounts.len(),
                rows == store.accounts.deep_view(),
                rows.len() == store.accounts.len(),
                accounts.deep_view() == owned_accounts(rows.take(i as int), client_id),
            decreases store.accounts.len() - i,
        {
            let row = &store.accounts[i];
            assert(row@ == rows[i as int]);
            assert(rows.take(i + 1).drop_last() == rows.take(i as int));
            if row.client_id == client_id {
                let ghost before = accounts.deep_view();
                let account = AccountInfo {
                    account: row.account_name.clone(),
                    username: row.account_username.clone(),
                    password: row.account_password.clone(),
                    accountId: Some(row.account_id),
                };
                assert(account@ == row@.account());
                accounts.push(account);
                assert(accounts.deep_view() == before.push(row@.account()));
            }
            i = i + 1;
        }
        assert(rows.take(i as int) == rows);
        accounts
    }
}

/// What the vault writes: a new account of a client. Changing and removing
/// an account are declared and have no behaviour yet.
pub trait Transfer {
    fn add_account(store: &mut CredentialStore, entry: AccountInfo, id: &u8) -> Result<
        u64,
        VaultError,
    >;

    fn edit_account(store: &CredentialStore, account_id: u64, entry: AccountInfo) -> Result<
        (),
        VaultError,
    >;

    fn delete_account(store: &CredentialStore, account_id: u64) -> Result<(), VaultError>;
}

impl Transfer for AccountInfo {
    /// Stores `entry` as a new account of the client `id` and yields the
    /// identifier that the store assigned: one more than the greatest in
    /// use. An identifier that `entry` carries is not looked at. An entry
    /// without a site or a user name, a client that does not exist, and a
    /// store whose identifiers are used up are refused with
    /// `PersistenceError`, and the store stays as it was.
    fn add_account(store: &mut CredentialStore, entry: AccountInfo, id: &u8) -> (added: Result<
        u64,
        VaultError,
    >)
        ensures
            match added {
                Ok(account_id) => {
                    &&& old(store)@.accepts(entry@, *id)
                    &&& account_id == old(store)@.next_account_id()
                    &&& final(store)@ == old(store)@.with_account(entry@, *id)
                },
                Err(e) => {
                    &&& e == VaultError::PersistenceError
                    &&& !old(store)@.accepts(entry@, *id)
                    &&& final(store)@ == old(store)@
                },
            },
            final(store)@.wf(),
    {
        proof {
            use_type_invariant(&*store);
        }
        let highest = highest_account_id(&store.accounts);
        if entry.account.as_str().is_empty() || entry.username.as_str().is_empty()
            || !client_exists(&store.clients, *id) || highest == u64::MAX {
            return Err(VaultError::PersistenceError);
        }
        let account_id = highest + 1;
        let row = AccountRow {
            account_id,
            client_id: *id,
            account_name: entry.account,
            account_username: entry.username,
            account_password: entry.password,
        };
        proof {
            store@.lemma_with_account_wf(entry@, *id);
            assert(row@ == store@.new_row(entry@, *id));
        }
        let ghost before = store.accounts.deep_view();
        let mut accounts: Vec<AccountRow> = Vec::new();
        std::mem::swap(&mut accounts, &mut store.accounts);
        accounts.push(row);
        assert(accounts.deep_view() == before.push(row@));
        store.accounts = accounts;
        Ok(account_id)
    }

    /// Changing an account has no rules yet: every call fails with
    /// `Unsupported`, and the store, only read, stays as it is.
    fn edit_account(store: &CredentialStore, account_id: u64, entry: AccountInfo) -> (edited:
        Result<(), VaultError>)
        ensures
            edited == Err::<(), VaultError>(VaultError::Unsupported),
    {
        Err(VaultError::Unsupported)
    }

    /// Removing an account has no rules yet: every call fails with
    /// `Unsupported`, and the store, only read, stays as it is.
    fn delete_account(store: &CredentialStore, account_id: u64) -> (deleted: Result<
        (),
        VaultError,
    >)
        ensures
            deleted == Err::<(), VaultError>(VaultError::Unsupported),
    {
        Err(VaultError::Unsupported)
    }
}

} // verus!
