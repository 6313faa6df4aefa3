//! The crate's model of an account as the hook sees it: an address, the
//! funds that mark its existence, its raw content, and the host's flags.

use vstd::prelude::*;
use crate::KEY_LEN;

verus! {

/// One account of an invocation's account list.
pub struct AccountView {
    /// The account's address.
    pub key: Vec<u8>,
    /// Funds held by the account; zero marks an account never created.
    pub lamports: u64,
    /// The account's raw content.
    pub data: Vec<u8>,
    /// Whether the account signed the invocation.
    pub is_signer: bool,
    /// Whether the account was supplied writable.
    pub is_writable: bool,
}

/// The mathematical value of an `AccountView`.
#[verifier::ext_equal]
pub ghost struct AccountValue {
    /// The account's address.
    pub key: Seq<u8>,
    /// Funds held by the account; zero marks an account never created.
    pub lamports: u64,
    /// The account's raw content.
    pub data: Seq<u8>,
    /// Whether the account signed the invocation.
    pub is_signer: bool,
    /// Whether the account was supplied writable.
    pub is_writable: bool,
}

impl View for AccountView {
    type V = AccountValue;

    open spec fn view(&self) -> AccountValue {
        AccountValue {
            key: self.key@,
            lamports: self.lamports,
            data: self.data@,
            is_signer: self.is_signer,
            is_writable: self.is_writable,
        }
    }
}

impl AccountValue {
    /// The account's address has address length.
    pub open spec fn wf(&self) -> bool {
        self.key.len() == KEY_LEN
    }
}

/// Every account of the list has a full-length address.
pub open spec fn accounts_wf(accounts: Seq<AccountValue>) -> bool {
    forall|i: int| 0 <= i < accounts.len() ==> (#[trigger] accounts[i]).wf()
}

/// The views of a vector of accounts.
pub open spec fn account_views(accounts: Seq<AccountView>) -> Seq<AccountValue> {
    Seq::new(accounts.len(), |i: int| accounts[i]@)
}

} // verus!
