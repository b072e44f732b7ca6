//! The records that the vault keeps: a stored account, the session of the
//! client who is logged in, and the make-up of a generated password.

use vstd::prelude::*;

verus! {

/// One stored credential: the site it belongs to, the name and the password
/// used there, and the identifier that the store gave it.
#[allow(non_snake_case)]
#[derive(Debug)]
pub struct AccountInfo {
    pub account: String,
    pub username: String,
    pub password: String,
    /// `None` until the store has kept the account.
    pub accountId: Option<u64>,
}

/// What an [`AccountInfo`] holds, as mathematical values.
pub struct AccountInfoView {
    pub account: Seq<char>,
    pub username: Seq<char>,
    pub password: Seq<char>,
    pub account_id: Option<u64>,
}

impl View for AccountInfo {
    type V = AccountInfoView;

    open spec fn view(&self) -> AccountInfoView {
        AccountInfoView {
            account: self.account@,
            username: self.username@,
            password: self.password@,
            account_id: self.accountId,
        }
    }
}

impl DeepView for AccountInfo {
    type V = AccountInfoView;

    open spec fn deep_view(&self) -> AccountInfoView {
        self@
    }
}

impl AccountInfoView {
    /// The same account, carrying the identifier `id`.
    pub open spec fn with_id(self, id: u64) -> AccountInfoView {
        AccountInfoView { account_id: Some(id), ..self }
    }

    /// A draft names its site and its user; the password is not looked at.
    pub open spec fn is_valid_draft(self) -> bool {
        self.account.len() > 0 && self.username.len() > 0
    }
}

impl Clone for AccountInfo {
    fn clone(&self) -> (copy: Self)
        ensures
            copy == *self,
    {
        AccountInfo {
            account: self.account.clone(),
            username: self.username.clone(),
            password: self.password.clone(),
            accountId: self.accountId,
        }
    }
}

/// The session: the client who is logged in, if any.
pub struct User {
    pub client_id: Option<u8>,
}

impl User {
    /// The identifier that the session stands for: that of the client who
    /// is logged in, and 0, which is nobody's, where none is.
    pub open spec fn session_id(self) -> u8 {
        match self.client_id {
            Some(id) => id,
            None => 0,
        }
    }
}

/// How many characters of each class a generated password is meant to hold.
pub struct PasswordSpecs {
    lower_letters: u8,
    upper_letters: u8,
    numbers: u8,
    special_chars: u8,
}

impl PasswordSpecs {
    /// The four counts: lower-case letters, upper-case letters, digits and
    /// special characters, in this order.
    pub closed spec fn counts(self) -> (u8, u8, u8, u8) {
        (self.lower_letters, self.upper_letters, self.numbers, self.special_chars)
    }
}

/// A starting value for a record, to be overwritten once the real one is known.
pub trait Default: Sized {
    fn default() -> Self;
}

impl Default for AccountInfo {
    fn default() -> (entry: Self)
        ensures
            entry@.account == "default_account"@,
            entry@.username == "default_username"@,
            entry@.password == "default_password"@,
            entry@.account_id is None,
    {
        AccountInfo {
            account: String::from_str("default_account"),
            username: String::from_str("default_username"),
            password: String::from_str("default_password"),
            accountId: None,
        }
    }
}

impl Default for User {
    fn default() -> (user: Self)
        ensures
            user.client_id is None,
    {
        User { client_id: None }
    }
}

impl Default for PasswordSpecs {
    fn default() -> (specs: Self)
        ensures
            specs.counts() == (8u8, 2u8, 4u8, 4u8),
    {
        PasswordSpecs { lower_letters: 8, upper_letters: 2, numbers: 4, special_chars: 4 }
    }
}

} // verus!
