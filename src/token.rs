use vstd::prelude::*;

verus! {

/// The descriptive facts of a token.
#[derive(Debug)]
pub struct TokenInfo {
    pub name: String,
    pub symbol: String,
    pub total_supply: i128,
}

/// Why a token operation was refused. A refused operation changes nothing.
#[derive(Clone, Copy, Debug, PartialEq, Eq, Structural)]
pub enum TokenError {
    /// The supply a token is created with must be strictly positive.
    InvalidSupply,
    /// A transfer must move a strictly positive amount.
    InvalidAmount,
    /// The balance does not cover the transfer.
    InsufficientBalance,
}

/// A minimal single-balance token: its description and the balance held by
/// the issuer, which starts at the whole supply.
pub struct TokenContract {
    pub info: Option<TokenInfo>,
    pub balance: i128,
}

impl TokenContract {
    /// A token that has not been set up: no description, nothing held.
    pub fn new() -> (r: TokenContract)
        ensures
            r.info is None,
            r.balance == 0,
    {
        TokenContract { info: None, balance: 0 }
    }

    /// Describes the token and hands the whole supply to the issuer; refused
    /// when the supply is not positive.
    pub fn initialize(&mut self, name: String, symbol: String, total_supply: i128) -> (r: Result<
        (),
        TokenError,
    >)
        ensures
            total_supply <= 0 <==> r is Err,
            r is Err ==> r == Err::<(), TokenError>(TokenError::InvalidSupply) && *final(self)
                == *old(self),
            r is Ok ==> {
                &&& final(self).info is Some
                &&& final(self).info->Some_0.name@ == name@
                &&& final(self).info->Some_0.symbol@ == symbol@
                &&& final(self).info->Some_0.total_supply == total_supply
                &&& final(self).balance == total_supply
            },
    {
        if total_supply <= 0 {
            return Err(TokenError::InvalidSupply);
        }
        self.info = Some(TokenInfo { name, symbol, total_supply });
        self.balance = total_supply;
        Ok(())
    }

    pub fn get_name(&self) -> (r: String)
        requires
            self.info is Some,
        ensures
            r@ == self.info->Some_0.name@,
    {
        match &self.info {
            Some(info) => info.name.clone(),
            None => String::new(),
        }
    }

    pub fn get_symbol(&self) -> (r: String)
        requires
            self.info is Some,
        ensures
            r@ == self.info->Some_0.symbol@,
    {
        match &self.info {
            Some(info) => info.symbol.clone(),
            None => String::new(),
        }
    }

    pub fn get_total_supply(&self) -> (r: i128)
        requires
            self.info is Some,
        ensures
            r == self.info->Some_0.total_supply,
    {
        match &self.info {
            Some(info) => info.total_supply,
            None => 0,
        }
    }

    pub fn get_balance(&self) -> (r: i128)
        ensures
            r == self.balance,
    {
        self.balance
    }

    /// Moves `amount` out of the issuer's balance; refused for a non-positive
    /// amount, then for one the balance does not cover.
    pub fn transfer(&mut self, amount: i128) -> (r: Result<(), TokenError>)
        ensures
            amount <= 0 ==> r == Err::<(), TokenError>(TokenError::InvalidAmount),
            amount > 0 && old(self).balance < amount ==> r == Err::<(), TokenError>(
                TokenError::InsufficientBalance,
            ),
            amount > 0 && old(self).balance >= amount ==> r is Ok,
            r is Err ==> *final(self) == *old(self),
            r is Ok ==> final(self).balance == old(self).balance - amount && final(self).info
                == old(self).info,
    {
        if amount <= 0 {
            return Err(TokenError::InvalidAmount);
        }
        if self.balance < amount {
            return Err(TokenError::InsufficientBalance);
        }
        self.balance = self.balance - amount;
        Ok(())
    }
}

} // verus!
