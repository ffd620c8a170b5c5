use vstd::prelude::*;
use vstd::utf8::encode_utf8;

use crate::arith::{checked_increase, counter_max};
use crate::call::{
    all_mint_calls, copy_operands, forwarded, reply, result_view, shift_or_err, CallResponse,
    CallView, Context, ResponseView,
};
use crate::codec::{le_bytes, le_bytes_spec, packed_text};
use crate::error::TokenError;
use crate::token::{
    fresh_ledger, initialization_observed, minted, name_and_symbol_set, text_bytes, MintableToken,
    TokenState, TokenView,
};

verus! {

/// The free-mint contract: anyone may mint a fixed amount per call, up to a
/// cap on the number of mints.
pub struct MintableAlkane {
    /// The slots shared with every token contract.
    pub token: TokenState,
    /// How many opcode-77 mints have been counted.
    pub minted: u128,
    /// The greatest number of mints that succeed; `u128::MAX` when unlimited.
    pub cap: u128,
    /// The units that one mint creates.
    pub value_per_mint: u128,
}

/// The free-mint contract's slots as plain values.
pub struct FreeMintView {
    pub token: TokenView,
    pub minted: u128,
    pub cap: u128,
    pub value_per_mint: u128,
}

impl View for MintableAlkane {
    type V = FreeMintView;

    open spec fn view(&self) -> FreeMintView {
        FreeMintView {
            token: self.token@,
            minted: self.minted,
            cap: self.cap,
            value_per_mint: self.value_per_mint,
        }
    }
}

/// The cap that an init operand stands for: zero means unlimited, stored as
/// the largest 128-bit value.
pub open spec fn cap_setting(v: u128) -> u128 {
    if v == 0 {
        u128::MAX
    } else {
        v
    }
}

/// Opcode 0. The init guard comes first; then the operands are taken in order:
/// initial units, value per mint, cap, name, symbol. The initial units are
/// minted to the caller.
pub open spec fn free_mint_init(s: FreeMintView, c: CallView) -> (FreeMintView, Result<ResponseView, TokenError>) {
    let args = c.inputs.drop_first();
    let (t1, g) = initialization_observed(s.token);
    let s1 = FreeMintView { token: t1, ..s };
    if g is Err {
        (s, Err(TokenError::AlreadyInitialized))
    } else if args.len() < 2 {
        (s1, Err(TokenError::MissingOperand))
    } else {
        let s2 = FreeMintView { value_per_mint: args[1], ..s1 };
        if args.len() < 3 {
            (s2, Err(TokenError::MissingOperand))
        } else {
            let s3 = FreeMintView {
                cap: cap_setting(args[2]),
                token: TokenView { data: c.payload, ..s2.token },
                ..s2
            };
            if args.len() < 5 {
                (s3, Err(TokenError::MissingOperand))
            } else {
                let (t4, nr) = name_and_symbol_set(s3.token, args[3], args[4]);
                let s4 = FreeMintView { token: t4, ..s3 };
                if nr is Err {
                    (s4, Err(TokenError::InvalidUtf8))
                } else {
                    let (t5, mr) = minted(s4.token, c.myself, args[0]);
                    let s5 = FreeMintView { token: t5, ..s4 };
                    match mr {
                        Ok(x) => (s5, Ok(ResponseView { alkanes: c.incoming.push(x), data: Seq::empty() })),
                        Err(e) => (s5, Err(e)),
                    }
                }
            }
        }
    }
}

/// Opcode 77. One mint of `value_per_mint` units; the minted count is raised
/// before it is held against the cap, so the call that takes the count from
/// `cap` to `cap + 1` is the one that fails.
pub open spec fn free_mint_mint(s: FreeMintView, c: CallView) -> (FreeMintView, Result<ResponseView, TokenError>) {
    let (t1, mr) = minted(s.token, c.myself, s.value_per_mint);
    let s1 = FreeMintView { token: t1, ..s };
    match mr {
        Err(e) => (s1, Err(e)),
        Ok(x) => if s.minted + 1 > counter_max() {
            (s1, Err(TokenError::ArithmeticOverflow))
        } else {
            let s2 = FreeMintView { minted: (s.minted + 1) as u128, ..s1 };
            if s2.minted > s2.cap {
                (s2, Err(TokenError::CapExceeded))
            } else {
                (s2, Ok(ResponseView { alkanes: c.incoming.push(x), data: Seq::empty() }))
            }
        },
    }
}

/// What one call does to a free-mint contract, and what it answers.
pub open spec fn free_mint_step(s: FreeMintView, c: CallView) -> (FreeMintView, Result<ResponseView, TokenError>) {
    if c.inputs.len() == 0 {
        (s, Err(TokenError::MissingOperand))
    } else {
        let op = c.inputs[0];
        if op == 0 {
            free_mint_init(s, c)
        } else if op == 77 {
            free_mint_mint(s, c)
        } else if op == 99 {
            (s, reply(c, encode_utf8(s.token.name)))
        } else if op == 100 {
            (s, reply(c, encode_utf8(s.token.symbol)))
        } else if op == 101 {
            (s, reply(c, le_bytes_spec(s.token.total_supply)))
        } else if op == 102 {
            (s, reply(c, le_bytes_spec(s.cap)))
        } else if op == 103 {
            (s, reply(c, le_bytes_spec(s.minted)))
        } else if op == 104 {
            (s, reply(c, le_bytes_spec(s.value_per_mint)))
        } else if op == 1000 {
            (s, reply(c, s.token.data))
        } else {
            (s, Err(TokenError::UnrecognizedOpcode))
        }
    }
}

impl MintableAlkane {
    /// A contract instance that no call has touched.
    pub fn new() -> (r: MintableAlkane)
        ensures
            r@ == (FreeMintView { token: fresh_ledger(), minted: 0, cap: 0, value_per_mint: 0 }),
    {
        MintableAlkane { token: TokenState::new(), minted: 0, cap: 0, value_per_mint: 0 }
    }

    /// The number of counted mints.
    pub fn minted(&self) -> (r: u128)
        ensures
            r == self.minted,
    {
        self.minted
    }

    /// Overwrites the number of counted mints.
    pub fn set_minted(&mut self, v: u128)
        ensures
            final(self)@ == (FreeMintView { minted: v, ..old(self)@ }),
    {
        self.minted = v;
    }

    /// Counts one more mint, failing with `ArithmeticOverflow` (and counting
    /// nothing) when the count is already the largest 128-bit value.
    pub fn increment_mint(&mut self) -> (r: Result<(), TokenError>)
        ensures
            old(self).minted < u128::MAX ==> r is Ok
                && final(self)@ == (FreeMintView { minted: (old(self).minted + 1) as u128, ..old(self)@ }),
            old(self).minted == u128::MAX ==> r == Err::<(), TokenError>(TokenError::ArithmeticOverflow)
                && final(self)@ == old(self)@,
    {
        let next = checked_increase(self.minted(), 1)?;
        self.set_minted(next);
        Ok(())
    }

    /// The units that one mint creates.
    pub fn value_per_mint(&self) -> (r: u128)
        ensures
            r == self.value_per_mint,
    {
        self.value_per_mint
    }

    /// Overwrites the units that one mint creates.
    pub fn set_value_per_mint(&mut self, v: u128)
        ensures
            final(self)@ == (FreeMintView { value_per_mint: v, ..old(self)@ }),
    {
        self.value_per_mint = v;
    }

    /// The cap on the number of mints.
    pub fn cap(&self) -> (r: u128)
        ensures
            r == self.cap,
    {
        self.cap
    }

    /// Stores the cap; zero stands for unlimited and is stored as `u128::MAX`.
    pub fn set_cap(&mut self, v: u128)
        ensures
            final(self)@ == (FreeMintView { cap: cap_setting(v), ..old(self)@ }),
            v == 0 ==> final(self).cap == u128::MAX,
    {
        self.cap = if v == 0 {
            u128::MAX
        } else {
            v
        };
    }

    /// Opcode 0, with `args` the operands after the opcode.
    fn initialize(&mut self, context: &Context, args: &mut Vec<u128>, response: CallResponse) -> (r: Result<CallResponse, TokenError>)
        requires
            context@.inputs.len() > 0,
            old(args)@ == context@.inputs.drop_first(),
            response@ == forwarded(context@.incoming),
        ensures
            (final(self)@, result_view(r)) == free_mint_init(old(self)@, context@),
    {
        let ghost a = args@;
        let mut response = response;
        self.token.observe_initialization()?;
        let token_units = shift_or_err(args)?;
        self.set_value_per_mint(shift_or_err(args)?);
        self.set_cap(shift_or_err(args)?);
        self.token.set_data(&context.payload);
        let name = shift_or_err(args)?;
        let symbol = shift_or_err(args)?;
        assert(name == a[3] && symbol == a[4]);
        self.token.set_name_and_symbol(name, symbol)?;
        let transfer = self.token.mint(context, token_units)?;
        response.alkanes.push(transfer);
        Ok(response)
    }

    /// Opcode 77.
    fn mint_once(&mut self, context: &Context, response: CallResponse) -> (r: Result<CallResponse, TokenError>)
        requires
            response@ == forwarded(context@.incoming),
        ensures
            (final(self)@, result_view(r)) == free_mint_mint(old(self)@, context@),
    {
        let mut response = response;
        let transfer = self.token.mint(context, self.value_per_mint())?;
        response.alkanes.push(transfer);
        self.increment_mint()?;
        if self.minted() > self.cap() {
            Err(TokenError::CapExceeded)
        } else {
            Ok(response)
        }
    }

    /// Runs one call: the first operand selects the operation, the response
    /// forwards the incoming value and adds what the operation emits.
    pub fn execute(&mut self, context: &Context) -> (r: Result<CallResponse, TokenError>)
        ensures
            (final(self)@, result_view(r)) == free_mint_step(old(self)@, context@),
    {
        let mut inputs = copy_operands(&context.inputs);
        let mut response = CallResponse::forward(&context.incoming_alkanes);
        let opcode = shift_or_err(&mut inputs)?;
        if opcode == 0 {
            self.initialize(context, &mut inputs, response)
        } else if opcode == 77 {
            self.mint_once(context, response)
        } else if opcode == 99 {
            response.data = text_bytes(&self.token.name);
            Ok(response)
        } else if opcode == 100 {
            response.data = text_bytes(&self.token.symbol);
            Ok(response)
        } else if opcode == 101 {
            response.data = le_bytes(self.token.total_supply());
            Ok(response)
        } else if opcode == 102 {
            response.data = le_bytes(self.cap());
            Ok(response)
        } else if opcode == 103 {
            response.data = le_bytes(self.minted());
            Ok(response)
        } else if opcode == 104 {
            response.data = le_bytes(self.value_per_mint());
            Ok(response)
        } else if opcode == 1000 {
            response.data = self.token.data();
            Ok(response)
        } else {
            Err(TokenError::UnrecognizedOpcode)
        }
    }
}

/// A free-mint contract run through `calls` in order: the final slots and
/// each call's result.
pub open spec fn free_mint_run(s: FreeMintView, calls: Seq<CallView>) -> (FreeMintView, Seq<Result<ResponseView, TokenError>>)
    decreases calls.len(),
{
    if calls.len() == 0 {
        (s, Seq::empty())
    } else {
        let (s1, rs) = free_mint_run(s, calls.drop_last());
        let (s2, r) = free_mint_step(s1, calls.last());
        (s2, rs.push(r))
    }
}

/// The units that a successful mint reply hands out: its last transfer.
pub open spec fn minted_amount(r: Result<ResponseView, TokenError>) -> int {
    match r {
        Ok(resp) => resp.alkanes.last().value as int,
        Err(_) => 0,
    }
}

/// The units that a list of mint replies hands out in all.
pub open spec fn minted_total(rs: Seq<Result<ResponseView, TokenError>>) -> int
    decreases rs.len(),
{
    if rs.len() == 0 {
        0
    } else {
        minted_total(rs.drop_last()) + minted_amount(rs.last())
    }
}

/// A new free-mint instance.
pub open spec fn fresh_free_mint() -> FreeMintView {
    FreeMintView { token: fresh_ledger(), minted: 0, cap: 0, value_per_mint: 0 }
}

/// Init runs once: on a new instance an init call with its five operands,
/// whose name and symbol decode, succeeds; after it, every init call fails
/// with `AlreadyInitialized` and changes nothing, whatever its operands.
pub proof fn lemma_init_once(c1: CallView, c2: CallView)
    requires
        c1.inputs.len() >= 6,
        c1.inputs[0] == 0,
        packed_text(c1.inputs[4]) is Some,
        packed_text(c1.inputs[5]) is Some,
        c2.inputs.len() >= 1,
        c2.inputs[0] == 0,
    ensures
        free_mint_step(fresh_free_mint(), c1).1 is Ok,
        free_mint_step(free_mint_step(fresh_free_mint(), c1).0, c2) == (
            free_mint_step(fresh_free_mint(), c1).0,
            Err::<ResponseView, TokenError>(TokenError::AlreadyInitialized),
        ),
{
}

/// The total supply never decreases, whatever the call and whether or not
/// it succeeds.
pub proof fn lemma_supply_never_decreases(s: FreeMintView, c: CallView)
    ensures
        free_mint_step(s, c).0.token.total_supply >= s.token.total_supply,
{
}

/// A run answers each call once.
proof fn lemma_run_len(s: FreeMintView, calls: Seq<CallView>)
    ensures
        free_mint_run(s, calls).1.len() == calls.len(),
    decreases calls.len(),
{
    if calls.len() > 0 {
        lemma_run_len(s, calls.drop_last());
    }
}

/// After a sequence of successful mint calls the total supply has grown by
/// exactly the sum of the amounts that the calls minted.
pub proof fn lemma_supply_is_sum_of_mints(s: FreeMintView, calls: Seq<CallView>)
    requires
        all_mint_calls(calls),
        forall|i: int| 0 <= i < calls.len() ==> (#[trigger] free_mint_run(s, calls).1[i]) is Ok,
    ensures
        free_mint_run(s, calls).0.token.total_supply == s.token.total_supply + minted_total(free_mint_run(s, calls).1),
    decreases calls.len(),
{
    if calls.len() > 0 {
        let prefix = calls.drop_last();
        let (s1, rs) = free_mint_run(s, prefix);
        let (s2, r) = free_mint_step(s1, calls.last());
        lemma_run_len(s, prefix);
        assert(free_mint_run(s, calls).1 == rs.push(r));
        assert forall|i: int| 0 <= i < prefix.len() implies (#[trigger] free_mint_run(s, prefix).1[i]) is Ok by {
            assert(rs.push(r)[i] == rs[i]);
            assert(free_mint_run(s, calls).1[i] is Ok);
        }
        assert(all_mint_calls(prefix)) by {
            assert forall|i: int| 0 <= i < prefix.len() implies (#[trigger] prefix[i]).inputs.len() > 0 && prefix[i].inputs[0] == 77 by {
                assert(prefix[i] == calls[i]);
            }
        }
        lemma_supply_is_sum_of_mints(s, prefix);
        assert(rs.push(r).drop_last() =~= rs);
        assert(calls[calls.len() - 1] == calls.last());
        assert(rs.push(r)[calls.len() - 1] == r);
    }
}

/// The cap boundary: a mint call that neither overflows the supply nor the
/// count raises the minted count by one, and it succeeds exactly when the
/// count was below the cap; at the cap it fails with `CapExceeded`, the count
/// left one past the cap.
pub proof fn lemma_cap_boundary(s: FreeMintView, c: CallView)
    requires
        c.inputs.len() > 0,
        c.inputs[0] == 77,
        s.token.total_supply + s.value_per_mint <= counter_max(),
        s.minted < u128::MAX,
    ensures
        free_mint_step(s, c).0.minted == s.minted + 1,
        free_mint_step(s, c).1 is Ok <==> s.minted < s.cap,
        s.minted >= s.cap ==> free_mint_step(s, c).1 == Err::<ResponseView, TokenError>(TokenError::CapExceeded),
{
}

/// A zero cap operand stores the unlimited cap, and under the unlimited cap
/// no mint call fails with `CapExceeded`.
pub proof fn lemma_unlimited_cap(s: FreeMintView, c: CallView, m: CallView)
    requires
        !s.token.initialized,
        c.inputs.len() >= 4,
        c.inputs[0] == 0,
        c.inputs[3] == 0,
        m.inputs.len() > 0,
        m.inputs[0] == 77,
    ensures
        free_mint_step(s, c).0.cap == u128::MAX,
        free_mint_step(free_mint_step(s, c).0, m).1 != Err::<ResponseView, TokenError>(TokenError::CapExceeded),
{
}

/// The slots' invariants: the initialized flag is never cleared; once set,
/// the cap no longer changes; the minted count never decreases, and a
/// successful mint call raises it by exactly one.
pub proof fn lemma_slot_invariants(s: FreeMintView, c: CallView)
    ensures
        s.token.initialized ==> free_mint_step(s, c).0.token.initialized,
        s.token.initialized ==> free_mint_step(s, c).0.cap == s.cap,
        free_mint_step(s, c).0.minted >= s.minted,
        c.inputs.len() > 0 && c.inputs[0] == 77 && free_mint_step(s, c).1 is Ok ==> free_mint_step(s, c).0.minted
            == s.minted + 1,
{
}

impl Default for MintableAlkane {
    fn default() -> (r: MintableAlkane)
        ensures
            r@ == (FreeMintView { token: fresh_ledger(), minted: 0, cap: 0, value_per_mint: 0 }),
    {
        MintableAlkane::new()
    }
}

} // verus!
