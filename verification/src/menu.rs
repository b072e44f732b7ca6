//! The decisions of the text menu: what a typed line selects, when a login
//! enters the vault, and when the fields of a new entry are complete. The
//! caller prints the prompts and reads the lines; nothing here does.

use crate::error::VaultError;
use crate::generator::{generate_password, is_pool_char, length_of_text, parse_length};
use crate::records::{AccountInfo, User};
use crate::store::{CredentialStore, Retrieve, Transfer};
use vstd::prelude::*;

verus! {

/// The letter that a typed line selects: its first character, an upper-case
/// ASCII letter taken as its lower-case one, and the character with code 0
/// for an empty line. Blanks in front are not skipped.
pub open spec fn one_letter(line: Seq<char>) -> char {
    if line.len() == 0 {
        '\0'
    } else if 'A' <= line[0] <= 'Z' {
        ((line[0] as u32 + 32) as u8) as char
    } else {
        line[0]
    }
}

/// Reads the selecting letter off a typed line.
pub fn get_one_letter_input(line: &str) -> (letter: char)
    ensures
        letter == one_letter(line@),
{
    if line.unicode_len() == 0 {
        '\0'
    } else {
        let first = line.get_char(0);
        if first >= 'A' && first <= 'Z' {
            ((first as u32 + 32) as u8) as char
        } else {
            first
        }
    }
}

/// What a line selects at the entrance of the program.
#[derive(Clone, Copy, Debug, PartialEq, Eq, Structural)]
pub enum MainMenuChoice {
    /// Go on to the login.
    Login,
    /// Close the program.
    Quit,
    /// Neither of the two: the caller reports it and asks again.
    Invalid,
}

/// The choice at the entrance of the program: `y` logs in, `n` closes.
pub fn run_main_menu(line: &str) -> (choice: MainMenuChoice)
    ensures
        choice == if one_letter(line@) == 'y' {
            MainMenuChoice::Login
        } else if one_letter(line@) == 'n' {
            MainMenuChoice::Quit
        } else {
            MainMenuChoice::Invalid
        },
{
    let letter = get_one_letter_input(line);
    if letter == 'y' {
        MainMenuChoice::Login
    } else if letter == 'n' {
        MainMenuChoice::Quit
    } else {
        MainMenuChoice::Invalid
    }
}

/// How an attempt to log in ended.
#[derive(Clone, Copy, Debug, PartialEq, Eq, Structural)]
pub enum LoginOutcome {
    /// No user name was typed.
    MissingUsername,
    /// A user name was typed, but no password.
    MissingPassword,
    /// The client with this identifier is now logged in.
    LoggedIn(u8),
    /// No client carries this name with this password.
    Failed,
}

/// One attempt to log in with what the user typed. Both fields must hold
/// something. Where a client carries exactly this name and password, the
/// session is set to that client, who exists in the store; in every other
/// case the session stays as it was.
pub fn run_login_menu(
    user: &mut User,
    store: &CredentialStore,
    username_input: &str,
    password_input: &str,
) -> (outcome: LoginOutcome)
    ensures
        outcome == if username_input@.len() == 0 {
            LoginOutcome::MissingUsername
        } else if password_input@.len() == 0 {
            LoginOutcome::MissingPassword
        } else {
            match store@.login(username_input@, password_input@) {
                Some(id) => LoginOutcome::LoggedIn(id),
                None => LoginOutcome::Failed,
            }
        },
        match outcome {
            LoginOutcome::LoggedIn(id) => final(user).client_id == Some(id) && store@.has_client(
                id,
            ),
            _ => *final(user) == *old(user),
        },
{
    if username_input.is_empty() {
        return LoginOutcome::MissingUsername;
    }
    if password_input.is_empty() {
        return LoginOutcome::MissingPassword;
    }
    match user.lookup_user(store, username_input, password_input) {
        Ok(id) => {
            user.set_client_id(Some(id));
            LoginOutcome::LoggedIn(id)
        },
        Err(_) => LoginOutcome::Failed,
    }
}

/// What a line selects in the menu of a client who is logged in.
#[derive(Clone, Copy, Debug, PartialEq, Eq, Structural)]
pub enum LoggedInChoice {
    AddEntry,
    ViewEntries,
    /// Declared, without behaviour so far.
    EditEntry,
    /// Declared, without behaviour so far.
    DeleteEntry,
    Logout,
    /// None of the five: the caller reports it and asks again.
    Invalid,
}

/// Whether the line is exactly the one character `key`.
pub open spec fn is_key(line: Seq<char>, key: char) -> bool {
    line.len() == 1 && line[0] == key
}

/// The choice in the menu of a client who is logged in: the line must be
/// exactly one of the digits `1` to `5`.
pub fn run_logged_in_menu(line: &str) -> (choice: LoggedInChoice)
    ensures
        choice == if is_key(line@, '1') {
            LoggedInChoice::AddEntry
        } else if is_key(line@, '2') {
            LoggedInChoice::ViewEntries
        } else if is_key(line@, '3') {
            LoggedInChoice::EditEntry
        } else if is_key(line@, '4') {
            LoggedInChoice::DeleteEntry
        } else if is_key(line@, '5') {
            LoggedInChoice::Logout
        } else {
            LoggedInChoice::Invalid
        },
{
    if line.unicode_len() != 1 {
        return LoggedInChoice::Invalid;
    }
    let digit = line.get_char(0);
    if digit == '1' {
        LoggedInChoice::AddEntry
    } else if digit == '2' {
        LoggedInChoice::ViewEntries
    } else if digit == '3' {
        LoggedInChoice::EditEntry
    } else if digit == '4' {
        LoggedInChoice::DeleteEntry
    } else if digit == '5' {
        LoggedInChoice::Logout
    } else {
        LoggedInChoice::Invalid
    }
}

/// The accounts of the client who is logged in, in the order in which they
/// were stored. A session without a client lists nothing.
pub fn view_entries(user: &User, store: &CredentialStore) -> (accounts: Vec<AccountInfo>)
    ensures
        accounts.deep_view() == store@.accounts_of(user.session_id()),
        user.client_id is None ==> accounts@.len() == 0,
{
    store.keeps_rules();
    proof {
        store@.lemma_nobody_is_no_client();
    }
    let accounts = user.get_accounts(store, user.get_id());
    assert(accounts.deep_view().len() == accounts@.len());
    accounts
}

/// Stores `entry` for the client who is logged in and yields the
/// identifier that the store assigned. What the store refuses of any owner
/// it refuses here, with `PersistenceError` and without a change; a session
/// without a client is refused too, for nobody can own an account.
pub fn save_entry(user: &User, store: &mut CredentialStore, entry: AccountInfo) -> (added: Result<
    u64,
    VaultError,
>)
    ensures
        match added {
            Ok(account_id) => {
                &&& user.client_id is Some
                &&& old(store)@.accepts(entry@, user.session_id())
                &&& account_id == old(store)@.next_account_id()
                &&& final(store)@ == old(store)@.with_account(entry@, user.session_id())
            },
            Err(e) => {
                &&& e == VaultError::PersistenceError
                &&& !old(store)@.accepts(entry@, user.session_id())
                &&& final(store)@ == old(store)@
            },
        },
        final(store)@.wf(),
{
    store.keeps_rules();
    proof {
        store@.lemma_nobody_is_no_client();
    }
    let owner = user.get_id();
    AccountInfo::add_account(store, entry, &owner)
}

/// What a line selects when a new entry is to be added.
#[derive(Clone, Copy, Debug, PartialEq, Eq, Structural)]
pub enum AddEntryChoice {
    /// The system generates the password.
    GeneratePassword,
    /// The user types the password.
    TypePassword,
    /// Back to the menu.
    Back,
    /// None of the three: the caller reports it and asks again.
    Invalid,
}

/// The choice before a new entry: `y` has the password generated, `n` has
/// it typed, `q` goes back.
pub fn add_entry_menu(line: &str) -> (choice: AddEntryChoice)
    ensures
        choice == if one_letter(line@) == 'y' {
            AddEntryChoice::GeneratePassword
        } else if one_letter(line@) == 'n' {
            AddEntryChoice::TypePassword
        } else if one_letter(line@) == 'q' {
            AddEntryChoice::Back
        } else {
            AddEntryChoice::Invalid
        },
{
    let letter = get_one_letter_input(line);
    if letter == 'y' {
        AddEntryChoice::GeneratePassword
    } else if letter == 'n' {
        AddEntryChoice::TypePassword
    } else if letter == 'q' {
        AddEntryChoice::Back
    } else {
        AddEntryChoice::Invalid
    }
}

/// Takes a typed field that must hold something: an empty one is turned
/// down, and the caller asks again.
pub fn required_input(input: String) -> (field: Option<String>)
    ensures
        field == if input@.len() > 0 {
            Some(input)
        } else {
            None
        },
{
    if input.as_str().is_empty() {
        None
    } else {
        Some(input)
    }
}

/// The entry made of the three fields, not yet stored.
pub open spec fn draft_of(account_name: Seq<char>, username: Seq<char>, password: Seq<char>)
    -> crate::records::AccountInfoView {
    crate::records::AccountInfoView {
        account: account_name,
        username,
        password,
        account_id: None,
    }
}

/// Makes the new entry of three typed fields. All three must hold
/// something; else there is no entry, and the caller asks again.
pub fn prompt_account_info_all(account_name: String, username: String, password: String) -> (entry:
    Option<AccountInfo>)
    ensures
        match entry {
            Some(info) => {
                &&& account_name@.len() > 0 && username@.len() > 0 && password@.len() > 0
                &&& info@ == draft_of(account_name@, username@, password@)
            },
            None => account_name@.len() == 0 || username@.len() == 0 || password@.len() == 0,
        },
{
    if !account_name.as_str().is_empty() && !username.as_str().is_empty()
        && !password.as_str().is_empty() {
        Some(AccountInfo { account: account_name, username, password, accountId: None })
    } else {
        None
    }
}

/// Makes the new entry of two typed fields and a password that was
/// generated. The two typed fields must hold something; the password is
/// taken as it is.
pub fn prompt_account_info_some(account_name: String, username: String, password: String) -> (entry:
    Option<AccountInfo>)
    ensures
        match entry {
            Some(info) => {
                &&& account_name@.len() > 0 && username@.len() > 0
                &&& info@ == draft_of(account_name@, username@, password@)
            },
            None => account_name@.len() == 0 || username@.len() == 0,
        },
{
    if !account_name.as_str().is_empty() && !username.as_str().is_empty() {
        Some(AccountInfo { account: account_name, username, password, accountId: None })
    } else {
        None
    }
}

/// Generates a password of the length that the user typed. A text that is
/// no length is refused with `InvalidLength`. A length of 0 gives the empty
/// password, which no entry can use: the caller asks again.
pub fn get_password_generate(length_text: &str) -> (generated: Result<String, VaultError>)
    ensures
        match generated {
            Ok(password) => {
                &&& length_of_text(length_text@) == Some(password@.len() as u8)
                &&& password@.len() <= u8::MAX
                &&& forall|i: int|
                    0 <= i < password@.len() ==> is_pool_char(#[trigger] password@[i])
            },
            Err(e) => e == VaultError::InvalidLength && length_of_text(length_text@) is None,
        },
{
    match parse_length(length_text) {
        Ok(length) => Ok(generate_password(length)),
        Err(e) => Err(e),
    }
}

} // verus!
