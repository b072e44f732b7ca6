//! The credential tables as mathematical values: what they hold, which
//! tables are well formed, what a login and an insertion mean, and the laws
//! that follow.

use crate::records::AccountInfoView;
use vstd::prelude::*;

verus! {

/// A row of the clients table.
pub struct ClientRowView {
    pub client_id: u8,
    pub username: Seq<char>,
    pub password: Seq<char>,
}

/// A row of the accounts table.
pub struct AccountRowView {
    pub account_id: u64,
    pub client_id: u8,
    pub account_name: Seq<char>,
    pub account_username: Seq<char>,
    pub account_password: Seq<char>,
}

impl AccountRowView {
    /// The account that the row stores, with the row's identifier.
    pub open spec fn account(self) -> AccountInfoView {
        AccountInfoView {
            account: self.account_name,
            username: self.account_username,
            password: self.account_password,
            account_id: Some(self.account_id),
        }
    }
}

/// The accounts among `rows` that belong to `owner`, in the order of the
/// rows.
pub open spec fn owned_accounts(rows: Seq<AccountRowView>, owner: u8) -> Seq<AccountInfoView>
    decreases rows.len(),
{
    if rows.len() == 0 {
        Seq::empty()
    } else if rows.last().client_id == owner {
        owned_accounts(rows.drop_last(), owner).push(rows.last().account())
    } else {
        owned_accounts(rows.drop_last(), owner)
    }
}

/// The greatest identifier among `rows`, and 0 where there is no row.
pub open spec fn highest_id(rows: Seq<AccountRowView>) -> u64
    decreases rows.len(),
{
    if rows.len() == 0 {
        0
    } else if rows.last().account_id > highest_id(rows.drop_last()) {
        rows.last().account_id
    } else {
        highest_id(rows.drop_last())
    }
}

/// Whether one of `clients` carries the identifier `id`.
pub open spec fn client_listed(clients: Seq<ClientRowView>, id: u8) -> bool {
    exists|i: int| 0 <= i < clients.len() && (#[trigger] clients[i]).client_id == id
}

/// The rules of the clients table: every client has an identifier other
/// than 0, a name and a password, and no two clients share an identifier or
/// a name. The identifier 0 is kept free: it stands for nobody.
pub open spec fn clients_wf(clients: Seq<ClientRowView>) -> bool {
    &&& forall|i: int|
        0 <= i < clients.len() ==> (#[trigger] clients[i]).client_id != 0
            && clients[i].username.len() > 0 && clients[i].password.len() > 0
    &&& forall|i: int, j: int|
        0 <= i < j < clients.len() ==> (#[trigger] clients[i]).client_id != (
        #[trigger] clients[j]).client_id && clients[i].username != clients[j].username
}

/// The rules of the accounts table: every account names its site and its
/// user and belongs to one of `clients`, and no two accounts share an
/// identifier.
pub open spec fn accounts_wf(clients: Seq<ClientRowView>, accounts: Seq<AccountRowView>) -> bool {
    &&& forall|i: int|
        0 <= i < accounts.len() ==> (#[trigger] accounts[i]).account_name.len() > 0
            && accounts[i].account_username.len() > 0 && client_listed(
            clients,
            accounts[i].client_id,
        )
    &&& forall|i: int, j: int|
        0 <= i < j < accounts.len() ==> (#[trigger] accounts[i]).account_id != (
        #[trigger] accounts[j]).account_id
}

/// The two tables of the credential store.
pub struct StoreView {
    pub clients: Seq<ClientRowView>,
    pub accounts: Seq<AccountRowView>,
}

impl StoreView {
    /// Whether a client with the identifier `id` exists.
    pub open spec fn has_client(self, id: u8) -> bool {
        client_listed(self.clients, id)
    }

    /// The rules that the tables keep at all times.
    pub open spec fn wf(self) -> bool {
        clients_wf(self.clients) && accounts_wf(self.clients, self.accounts)
    }

    /// Whether row `i` of the clients table carries exactly this name and
    /// this password.
    pub open spec fn is_login(self, i: int, username: Seq<char>, password: Seq<char>) -> bool {
        0 <= i < self.clients.len() && self.clients[i].username == username
            && self.clients[i].password == password
    }

    /// The client who logs in with this name and this password, if there is
    /// one.
    pub open spec fn login(self, username: Seq<char>, password: Seq<char>) -> Option<u8> {
        if exists|i: int| self.is_login(i, username, password) {
            Some(self.clients[choose|i: int| self.is_login(i, username, password)].client_id)
        } else {
            None
        }
    }

    /// The accounts of `owner`, in the order in which they were stored.
    pub open spec fn accounts_of(self, owner: u8) -> Seq<AccountInfoView> {
        owned_accounts(self.accounts, owner)
    }

    /// The identifier that the next account gets: one more than the
    /// greatest one in use.
    pub open spec fn next_account_id(self) -> nat {
        (highest_id(self.accounts) + 1) as nat
    }

    /// Whether the store takes `draft` for `owner`: the draft names its site
    /// and its user, the owner exists, and an identifier is left.
    pub open spec fn accepts(self, draft: AccountInfoView, owner: u8) -> bool {
        draft.is_valid_draft() && self.has_client(owner) && self.next_account_id() <= u64::MAX
    }

    /// The row that stores `draft` for `owner`.
    pub open spec fn new_row(self, draft: AccountInfoView, owner: u8) -> AccountRowView {
        AccountRowView {
            account_id: self.next_account_id() as u64,
            client_id: owner,
            account_name: draft.account,
            account_username: draft.username,
            account_password: draft.password,
        }
    }

    /// The tables after `draft` was stored for `owner`.
    pub open spec fn with_account(self, draft: AccountInfoView, owner: u8) -> StoreView {
        StoreView { accounts: self.accounts.push(self.new_row(draft, owner)), ..self }
    }
}

/// No row carries an identifier above the greatest one.
pub proof fn lemma_highest_id_bounds(rows: Seq<AccountRowView>, i: int)
    requires
        0 <= i < rows.len(),
    ensures
        rows[i].account_id <= highest_id(rows),
    decreases rows.len(),
{
    if i < rows.len() - 1 {
        lemma_highest_id_bounds(rows.drop_last(), i);
    }
}

/// One more row adds its account to its owner's list and to no other.
pub proof fn lemma_owned_accounts_push(rows: Seq<AccountRowView>, row: AccountRowView, owner: u8)
    ensures
        owned_accounts(rows.push(row), owner) == if row.client_id == owner {
            owned_accounts(rows, owner).push(row.account())
        } else {
            owned_accounts(rows, owner)
        },
{
    assert(rows.push(row).drop_last() == rows);
}

/// An account is listed for `owner` exactly when a row of `owner` stores it.
pub proof fn lemma_listed_iff_stored(rows: Seq<AccountRowView>, owner: u8, account: AccountInfoView)
    ensures
        owned_accounts(rows, owner).contains(account) <==> exists|i: int|
            0 <= i < rows.len() && (#[trigger] rows[i]).client_id == owner && rows[i].account()
                == account,
    decreases rows.len(),
{
    let listed = owned_accounts(rows, owner);
    if rows.len() > 0 {
        let front = rows.drop_last();
        let last = rows.last();
        lemma_listed_iff_stored(front, owner, account);
        if listed.contains(account) {
            let k = choose|k: int| 0 <= k < listed.len() && listed[k] == account;
            if last.client_id == owner && k == listed.len() - 1 {
                assert(rows[rows.len() - 1].account() == account);
            } else {
                assert(owned_accounts(front, owner)[k] == account);
                let i = choose|i: int|
                    0 <= i < front.len() && (#[trigger] front[i]).client_id == owner
                        && front[i].account() == account;
                assert(rows[i] == front[i]);
            }
        }
        if exists|i: int|
            0 <= i < rows.len() && (#[trigger] rows[i]).client_id == owner && rows[i].account()
                == account {
            let i = choose|i: int|
                0 <= i < rows.len() && (#[trigger] rows[i]).client_id == owner && rows[i].account()
                    == account;
            if i == rows.len() - 1 {
                assert(listed[listed.len() - 1] == account);
            } else {
                assert(front[i] == rows[i]);
                let k = choose|k: int|
                    0 <= k < owned_accounts(front, owner).len() && owned_accounts(front, owner)[k]
                        == account;
                assert(listed[k] == account);
            }
        }
    }
}

impl StoreView {
    /// Storing an accepted draft keeps the tables well formed.
    pub proof fn lemma_with_account_wf(self, draft: AccountInfoView, owner: u8)
        requires
            self.wf(),
            self.accepts(draft, owner),
        ensures
            self.with_account(draft, owner).wf(),
    {
        let after = self.with_account(draft, owner);
        let row = self.new_row(draft, owner);
        assert forall|i: int| 0 <= i < after.clients.len() implies (
        #[trigger] after.clients[i]).client_id == self.clients[i].client_id by {}
        assert forall|i: int| 0 <= i < after.accounts.len() implies (
        #[trigger] after.accounts[i]).account_name.len() > 0
            && after.accounts[i].account_username.len() > 0 && after.has_client(
            after.accounts[i].client_id,
        ) by {
            if i < self.accounts.len() {
                assert(after.accounts[i] == self.accounts[i]);
                assert(self.has_client(self.accounts[i].client_id));
            }
        }
        assert forall|i: int, j: int| 0 <= i < j < after.accounts.len() implies (
        #[trigger] after.accounts[i]).account_id != (#[trigger] after.accounts[j]).account_id by {
            assert(after.accounts[i] == self.accounts[i]);
            if j < self.accounts.len() {
                assert(after.accounts[j] == self.accounts[j]);
            } else {
                lemma_highest_id_bounds(self.accounts, i);
            }
        }
    }

    /// Nobody is a client: the identifier 0 belongs to no client, and owns
    /// no account.
    pub proof fn lemma_nobody_is_no_client(self)
        requires
            self.wf(),
        ensures
            !self.has_client(0),
            self.accounts_of(0) == Seq::<AccountInfoView>::empty(),
    {
        let listed = self.accounts_of(0);
        if listed.len() > 0 {
            self.lemma_listed_accounts_are_owned(0, 0);
        }
    }

    /// A login succeeds exactly when a client row carries the name and the
    /// password, and it then yields the identifier of that row, whichever
    /// row is looked at: there is only one.
    pub proof fn lemma_login_correct(self, username: Seq<char>, password: Seq<char>)
        requires
            self.wf(),
        ensures
            self.login(username, password) is Some <==> exists|i: int|
                0 <= i < self.clients.len() && (#[trigger] self.clients[i]).username == username
                    && self.clients[i].password == password,
            forall|i: int|
                0 <= i < self.clients.len() && (#[trigger] self.clients[i]).username == username
                    && self.clients[i].password == password ==> self.login(username, password)
                    == Some(self.clients[i].client_id),
            self.login(username, password) matches Some(id) ==> self.has_client(id),
    {
        if exists|i: int| self.is_login(i, username, password) {
            let chosen = choose|i: int| self.is_login(i, username, password);
            assert(self.clients[chosen].username == username);
            assert forall|i: int|
                0 <= i < self.clients.len() && (#[trigger] self.clients[i]).username == username
                    && self.clients[i].password == password implies i == chosen by {
                if i < chosen {
                    assert(self.clients[i].username != self.clients[chosen].username);
                } else if chosen < i {
                    assert(self.clients[chosen].username != self.clients[i].username);
                }
            }
        } else {
            assert forall|i: int| 0 <= i < self.clients.len() implies !((
            #[trigger] self.clients[i]).username == username && self.clients[i].password
                == password) by {
                assert(!self.is_login(i, username, password));
            }
        }
    }

    /// Where a name logs in with one password, it logs in with no other:
    /// changing a single character of the password is enough to fail.
    pub proof fn lemma_changed_password_fails(
        self,
        username: Seq<char>,
        password: Seq<char>,
        other: Seq<char>,
    )
        requires
            self.wf(),
            self.login(username, password) is Some,
            other != password,
        ensures
            self.login(username, other) is None,
    {
        let i = choose|i: int| self.is_login(i, username, password);
        if exists|j: int| self.is_login(j, username, other) {
            let j = choose|j: int| self.is_login(j, username, other);
            if i < j {
                assert(self.clients[i].username != self.clients[j].username);
            } else if j < i {
                assert(self.clients[j].username != self.clients[i].username);
            }
        }
    }

    /// Round trip: once an accepted draft is stored for a client, the
    /// client's accounts are those it had, followed by the draft with the
    /// identifier that the store assigned.
    pub proof fn lemma_round_trip(self, draft: AccountInfoView, owner: u8)
        requires
            self.wf(),
            self.accepts(draft, owner),
        ensures
            self.with_account(draft, owner).accounts_of(owner) == self.accounts_of(owner).push(
                draft.with_id(self.next_account_id() as u64),
            ),
            self.with_account(draft, owner).accounts_of(owner).contains(
                draft.with_id(self.next_account_id() as u64),
            ),
    {
        let row = self.new_row(draft, owner);
        lemma_owned_accounts_push(self.accounts, row, owner);
        assert(row.account() == draft.with_id(self.next_account_id() as u64));
        let listed = self.with_account(draft, owner).accounts_of(owner);
        assert(listed[listed.len() - 1] == row.account());
    }

    /// Isolation: storing an account for one client leaves the accounts of
    /// every other client as they were, and none of them carries the new
    /// account's identifier.
    pub proof fn lemma_isolation(self, draft: AccountInfoView, owner: u8, other: u8)
        requires
            self.wf(),
            self.accepts(draft, owner),
            other != owner,
        ensures
            self.with_account(draft, owner).accounts_of(other) == self.accounts_of(other),
            forall|k: int|
                0 <= k < self.accounts_of(other).len() ==> (
                #[trigger] self.with_account(draft, owner).accounts_of(other)[k]).account_id
                    != Some(self.next_account_id() as u64),
    {
        let row = self.new_row(draft, owner);
        lemma_owned_accounts_push(self.accounts, row, other);
        let listed = self.accounts_of(other);
        assert forall|k: int| 0 <= k < listed.len() implies (#[trigger] listed[k]).account_id
            != Some(self.next_account_id() as u64) by {
            assert(listed.contains(listed[k]));
            lemma_listed_iff_stored(self.accounts, other, listed[k]);
            let i = choose|i: int|
                0 <= i < self.accounts.len() && (#[trigger] self.accounts[i]).client_id == other
                    && self.accounts[i].account() == listed[k];
            lemma_highest_id_bounds(self.accounts, i);
        }
    }

    /// The accounts listed for a client are those of its own rows: no row
    /// of another client is among them.
    pub proof fn lemma_listed_accounts_are_owned(self, owner: u8, k: int)
        requires
            0 <= k < self.accounts_of(owner).len(),
        ensures
            exists|i: int|
                0 <= i < self.accounts.len() && (#[trigger] self.accounts[i]).client_id == owner
                    && self.accounts[i].account() == self.accounts_of(owner)[k],
    {
        let listed = self.accounts_of(owner);
        assert(listed.contains(listed[k]));
        lemma_listed_iff_stored(self.accounts, owner, listed[k]);
    }
}

} // verus!
