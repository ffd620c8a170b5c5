use vstd::prelude::*;
use vstd::utf8::encode_utf8;

use crate::arith::{checked_increase, counter_max};
use crate::call::{AlkaneId, AlkaneTransfer, Context};
use crate::codec::{packed_text, trim};
use crate::error::TokenError;

verus! {

/// The slots that every token contract keeps: name, symbol, total supply,
/// the initialized flag and the contract-data blob. A fresh instance holds
/// empty text, zero and false: slots read as empty before their first write.
pub struct TokenState {
    pub name: String,
    pub symbol: String,
    pub total_supply: u128,
    pub initialized: bool,
    pub data: Vec<u8>,
}

/// The shared slots as plain values.
pub struct TokenView {
    pub name: Seq<char>,
    pub symbol: Seq<char>,
    pub total_supply: u128,
    pub initialized: bool,
    pub data: Seq<u8>,
}

impl View for TokenState {
    type V = TokenView;

    open spec fn view(&self) -> TokenView {
        TokenView {
            name: self.name@,
            symbol: self.symbol@,
            total_supply: self.total_supply,
            initialized: self.initialized,
            data: self.data@,
        }
    }
}

/// The slots of an instance that no call has touched.
pub open spec fn fresh_ledger() -> TokenView {
    TokenView {
        name: Seq::empty(),
        symbol: Seq::empty(),
        total_supply: 0,
        initialized: false,
        data: Seq::empty(),
    }
}

/// Storing a packed name, then a packed symbol: each is stored when it
/// decodes, and the first that does not stops the step with `InvalidUtf8`.
pub open spec fn name_and_symbol_set(t: TokenView, name: u128, symbol: u128) -> (TokenView, Result<(), TokenError>) {
    match packed_text(name) {
        None => (t, Err(TokenError::InvalidUtf8)),
        Some(n) => {
            let t1 = TokenView { name: n, ..t };
            match packed_text(symbol) {
                None => (t1, Err(TokenError::InvalidUtf8)),
                Some(s) => (TokenView { symbol: s, ..t1 }, Ok(())),
            }
        },
    }
}

/// Adding `v` to the total supply, unless the sum leaves 128 bits.
pub open spec fn supply_increased(t: TokenView, v: u128) -> (TokenView, Result<(), TokenError>) {
    if t.total_supply + v <= counter_max() {
        (TokenView { total_supply: (t.total_supply + v) as u128, ..t }, Ok(()))
    } else {
        (t, Err(TokenError::ArithmeticOverflow))
    }
}

/// Minting `v` units of the token `myself`: the supply grows by `v` and the
/// new units come out as one transfer.
pub open spec fn minted(t: TokenView, myself: AlkaneId, v: u128) -> (TokenView, Result<AlkaneTransfer, TokenError>) {
    let (t1, r) = supply_increased(t, v);
    match r {
        Ok(_) => (t1, Ok(AlkaneTransfer { id: myself, value: v })),
        Err(e) => (t1, Err(e)),
    }
}

/// The init guard: the first observation sets the flag, every later one fails.
pub open spec fn initialization_observed(t: TokenView) -> (TokenView, Result<(), TokenError>) {
    if t.initialized {
        (t, Err(TokenError::AlreadyInitialized))
    } else {
        (TokenView { initialized: true, ..t }, Ok(()))
    }
}

/// The bookkeeping that every token contract shares: metadata, supply and
/// the init guard.
pub trait MintableToken {
    /// The shared slots of this contract.
    spec fn ledger(&self) -> TokenView;

    /// The stored name.
    fn name(&self) -> (r: String)
        ensures
            r@ == self.ledger().name,
    ;

    /// The stored symbol.
    fn symbol(&self) -> (r: String)
        ensures
            r@ == self.ledger().symbol,
    ;

    /// Decodes and stores a packed name and a packed symbol.
    fn set_name_and_symbol(&mut self, name: u128, symbol: u128) -> (r: Result<(), TokenError>)
        ensures
            (final(self).ledger(), r) == name_and_symbol_set(old(self).ledger(), name, symbol),
    ;

    /// The total supply minted so far.
    fn total_supply(&self) -> (r: u128)
        ensures
            r == self.ledger().total_supply,
    ;

    /// Overwrites the total supply.
    fn set_total_supply(&mut self, v: u128)
        ensures
            final(self).ledger() == (TokenView { total_supply: v, ..old(self).ledger() }),
    ;

    /// Adds `v` to the total supply through the checked addition.
    fn increase_total_supply(&mut self, v: u128) -> (r: Result<(), TokenError>)
        ensures
            (final(self).ledger(), r) == supply_increased(old(self).ledger(), v),
    ;

    /// Creates `value` new units of this contract's token: the only path by
    /// which value enters circulation. It enforces no cap. When the supply
    /// would overflow it fails with `ArithmeticOverflow` and leaves the
    /// supply as it was.
    fn mint(&mut self, context: &Context, value: u128) -> (r: Result<AlkaneTransfer, TokenError>)
        ensures
            (final(self).ledger(), r) == minted(old(self).ledger(), context.myself, value),
            old(self).ledger().total_supply + value > counter_max() ==> r == Err::<AlkaneTransfer, TokenError>(TokenError::ArithmeticOverflow)
                && final(self).ledger() == old(self).ledger(),
    ;

    /// Fails with `AlreadyInitialized` if the initialized flag is set,
    /// otherwise sets it.
    fn observe_initialization(&mut self) -> (r: Result<(), TokenError>)
        ensures
            (final(self).ledger(), r) == initialization_observed(old(self).ledger()),
    ;
}

/// The bytes of a stored text slot.
pub fn text_bytes(s: &String) -> (r: Vec<u8>)
    ensures
        r@ == encode_utf8(s@),
{
    vstd::slice::slice_to_vec(s.as_str().as_bytes())
}

impl TokenState {
    /// The slots of a fresh instance.
    pub fn new() -> (r: TokenState)
        ensures
            r@ == fresh_ledger(),
    {
        TokenState {
            name: String::new(),
            symbol: String::new(),
            total_supply: 0,
            initialized: false,
            data: Vec::new(),
        }
    }

    /// Stores the contract-data blob.
    pub fn set_data(&mut self, blob: &Vec<u8>)
        ensures
            final(self)@ == (TokenView { data: blob@, ..old(self)@ }),
    {
        self.data = vstd::slice::slice_to_vec(blob.as_slice());
    }

    /// The stored contract-data blob.
    pub fn data(&self) -> (r: Vec<u8>)
        ensures
            r@ == self@.data,
    {
        vstd::slice::slice_to_vec(self.data.as_slice())
    }
}

impl Default for TokenState {
    fn default() -> (r: TokenState)
        ensures
            r@ == fresh_ledger(),
    {
        TokenState::new()
    }
}

impl MintableToken for TokenState {
    open spec fn ledger(&self) -> TokenView {
        self@
    }

    fn name(&self) -> (r: String) {
        self.name.clone()
    }

    fn symbol(&self) -> (r: String) {
        self.symbol.clone()
    }

    fn set_name_and_symbol(&mut self, name: u128, symbol: u128) -> (r: Result<(), TokenError>) {
        self.name = trim(name)?;
        self.symbol = trim(symbol)?;
        Ok(())
    }

    fn total_supply(&self) -> (r: u128) {
        self.total_supply
    }

    fn set_total_supply(&mut self, v: u128) {
        self.total_supply = v;
    }

    fn increase_total_supply(&mut self, v: u128) -> (r: Result<(), TokenError>) {
        let total = checked_increase(self.total_supply, v)?;
        self.set_total_supply(total);
        Ok(())
    }

    fn mint(&mut self, context: &Context, value: u128) -> (r: Result<AlkaneTransfer, TokenError>) {
        self.increase_total_supply(value)?;
        Ok(AlkaneTransfer { id: context.myself, value })
    }

    fn observe_initialization(&mut self) -> (r: Result<(), TokenError>) {
        if self.initialized {
            Err(TokenError::AlreadyInitialized)
        } else {
            self.initialized = true;
            Ok(())
        }
    }
}

} // verus!
