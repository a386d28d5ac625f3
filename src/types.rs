use vstd::prelude::*;

verus! {

/// The identity of an account or of a program instance.
#[derive(Clone, Copy, Debug, PartialEq, Eq, Structural)]
pub struct Address {
    pub id: u64,
}

impl Address {
    pub fn new(id: u64) -> (r: Address)
        ensures
            r.id == id,
    {
        Address { id }
    }
}

/// The principals that have authorized the current call.
#[derive(Debug)]
pub enum Auth {
    /// Every principal counts as having authorized the call.
    All,
    /// Only the listed principals have authorized the call.
    Signers(Vec<Address>),
}

impl Auth {
    pub open spec fn authorizes(&self, who: Address) -> bool {
        match self {
            Auth::All => true,
            Auth::Signers(v) => v@.contains(who),
        }
    }

    /// Whether `who` has authorized the current call.
    pub fn allows(&self, who: Address) -> (r: bool)
        ensures
            r == self.authorizes(who),
    {
        match self {
            Auth::All => true,
            Auth::Signers(v) => {
                let mut i: usize = 0;
                while i < v.len()
                    invariant
                        i <= v@.len(),
                        self.authorizes(who) == v@.contains(who),
                        forall|k: int| 0 <= k < i ==> v@[k] != who,
                    decreases v@.len() - i,
                {
                    if v[i] == who {
                        proof {
                            assert(v@[i as int] == who);
                        }
                        return true;
                    }
                    i = i + 1;
                }
                false
            },
        }
    }
}

/// Why an operation was refused. A refused operation changes nothing.
#[derive(Clone, Copy, Debug, PartialEq, Eq, Structural)]
pub enum Error {
    NotInitialized,
    AlreadyInitialized,
    Unauthorized,
    InvalidArgument,
    SoldOut,
    NotFound,
    InvalidState,
    AlreadyListed,
}

/// A movement of `amount` units of the asset `asset` from `from` to `to`,
/// owed by a successful operation and settled by the host.
#[derive(Clone, Copy, Debug, PartialEq, Eq, Structural)]
pub struct Payment {
    pub asset: Address,
    pub from: Address,
    pub to: Address,
    pub amount: i128,
}

} // verus!
