use vstd::prelude::*;
use vstd::utf8::encode_utf8;

use crate::arith::counter_max;
use crate::call::{
    all_mint_calls, copy_operands, forwarded, reply, shift_or_err, AlkaneId, AlkaneTransfer,
    CallResponse, CallView, Context, ResponseView,
};
use crate::codec::{le_bytes, le_bytes_spec, packed_text};
use crate::error::TokenError;
use crate::token::{
    fresh_ledger, initialization_observed, minted, name_and_symbol_set, text_bytes, MintableToken,
    TokenState, TokenView,
};

verus! {

/// The owned-token contract: only a call that carries the companion auth
/// token may mint, and it names the amount.
pub struct OwnedToken {
    /// The slots shared with every token contract.
    pub token: TokenState,
    /// The auth token that gates minting, once it has been deployed.
    pub auth_token: Option<AlkaneId>,
}

/// The owned-token contract's slots as plain values.
pub struct OwnedView {
    pub token: TokenView,
    pub auth_token: Option<AlkaneId>,
}

impl View for OwnedToken {
    type V = OwnedView;

    open spec fn view(&self) -> OwnedView {
        OwnedView { token: self.token@, auth_token: self.auth_token }
    }
}

/// An init call that waits for the host to deploy the auth token.
pub struct PendingInit {
    /// The auth-token units to deploy the companion contract with.
    pub auth_units: u128,
    /// The initial units of this token, already minted.
    pub minted: AlkaneTransfer,
    /// The response built so far.
    pub response: CallResponse,
}

/// What a call asks of the host once the contract has decided.
pub enum Outcome {
    /// Send this response.
    Reply(CallResponse),
    /// Deploy the auth token, then finish with `OwnedToken::complete_init`.
    DeployAuthToken(PendingInit),
}

/// An outcome as plain values.
pub enum OutcomeView {
    Reply(ResponseView),
    DeployAuthToken { auth_units: u128, minted: AlkaneTransfer, response: ResponseView },
}

impl View for Outcome {
    type V = OutcomeView;

    open spec fn view(&self) -> OutcomeView {
        match self {
            Outcome::Reply(resp) => OutcomeView::Reply(resp@),
            Outcome::DeployAuthToken(p) => OutcomeView::DeployAuthToken {
                auth_units: p.auth_units,
                minted: p.minted,
                response: p.response@,
            },
        }
    }
}

/// A result whose outcome is seen through its view.
pub open spec fn outcome_view(r: Result<Outcome, TokenError>) -> Result<OutcomeView, TokenError> {
    match r {
        Ok(o) => Ok(o@),
        Err(e) => Err(e),
    }
}

/// A reply outcome.
pub open spec fn reply_outcome(r: Result<ResponseView, TokenError>) -> Result<OutcomeView, TokenError> {
    match r {
        Ok(resp) => Ok(OutcomeView::Reply(resp)),
        Err(e) => Err(e),
    }
}

/// Whether transfer `t` carries at least one unit of token `a`.
pub open spec fn unit_of(t: AlkaneTransfer, a: AlkaneId) -> bool {
    t.id == a && t.value >= 1
}

/// Whether some transfer of `incoming` carries at least one unit of token `a`.
pub open spec fn carries_unit(incoming: Seq<AlkaneTransfer>, a: AlkaneId) -> bool {
    exists|i: int| 0 <= i < incoming.len() && #[trigger] unit_of(incoming[i], a)
}

/// Whether `incoming` holds at least one unit of the auth token `auth`.
pub open spec fn holds_auth(auth: Option<AlkaneId>, incoming: Seq<AlkaneTransfer>) -> bool {
    match auth {
        None => false,
        Some(a) => carries_unit(incoming, a),
    }
}

/// Opcode 0. The init guard comes first; the data blob is stored; then the
/// operands are taken in order: auth-token units, token units, name, symbol;
/// the initial token units are minted. What is left is for the host: deploy
/// the auth token.
pub open spec fn owned_init(s: OwnedView, c: CallView) -> (OwnedView, Result<OutcomeView, TokenError>) {
    let args = c.inputs.drop_first();
    let (t1, g) = initialization_observed(s.token);
    if g is Err {
        (s, Err(TokenError::AlreadyInitialized))
    } else {
        let s2 = OwnedView { token: TokenView { data: c.payload, ..t1 }, ..s };
        if args.len() < 4 {
            (s2, Err(TokenError::MissingOperand))
        } else {
            let (t3, nr) = name_and_symbol_set(s2.token, args[2], args[3]);
            let s3 = OwnedView { token: t3, ..s2 };
            if nr is Err {
                (s3, Err(TokenError::InvalidUtf8))
            } else {
                let (t4, mr) = minted(s3.token, c.myself, args[1]);
                let s4 = OwnedView { token: t4, ..s3 };
                match mr {
                    Ok(x) => (s4, Ok(OutcomeView::DeployAuthToken {
                        auth_units: args[0],
                        minted: x,
                        response: forwarded(c.incoming),
                    })),
                    Err(e) => (s4, Err(e)),
                }
            }
        }
    }
}

/// Opcode 77. The caller must hold the auth token; the next operand is the
/// amount to mint.
pub open spec fn owned_mint(s: OwnedView, c: CallView) -> (OwnedView, Result<OutcomeView, TokenError>) {
    let args = c.inputs.drop_first();
    if !holds_auth(s.auth_token, c.incoming) {
        (s, Err(TokenError::Unauthorized))
    } else if args.len() < 1 {
        (s, Err(TokenError::MissingOperand))
    } else {
        let (t1, mr) = minted(s.token, c.myself, args[0]);
        let s1 = OwnedView { token: t1, ..s };
        match mr {
            Ok(x) => (s1, Ok(OutcomeView::Reply(ResponseView { alkanes: c.incoming.push(x), data: Seq::empty() }))),
            Err(e) => (s1, Err(e)),
        }
    }
}

/// What one call does to an owned-token contract, and what it answers.
pub open spec fn owned_step(s: OwnedView, c: CallView) -> (OwnedView, Result<OutcomeView, TokenError>) {
    if c.inputs.len() == 0 {
        (s, Err(TokenError::MissingOperand))
    } else {
        let op = c.inputs[0];
        if op == 0 {
            owned_init(s, c)
        } else if op == 77 {
            owned_mint(s, c)
        } else if op == 99 {
            (s, reply_outcome(reply(c, encode_utf8(s.token.name))))
        } else if op == 100 {
            (s, reply_outcome(reply(c, encode_utf8(s.token.symbol))))
        } else if op == 101 {
            (s, reply_outcome(reply(c, le_bytes_spec(s.token.total_supply))))
        } else if op == 1000 {
            (s, reply_outcome(reply(c, s.token.data)))
        } else {
            (s, Err(TokenError::UnrecognizedOpcode))
        }
    }
}

/// The response of an init call once the auth token is deployed: the
/// auth-token transfer, then the initial token units.
pub open spec fn init_completed(p: OutcomeView, auth: AlkaneTransfer) -> ResponseView
    recommends
        p is DeployAuthToken,
{
    let r = p->DeployAuthToken_response;
    ResponseView {
        alkanes: r.alkanes.push(auth).push(p->DeployAuthToken_minted),
        data: r.data,
    }
}

impl OwnedToken {
    /// A contract instance that no call has touched.
    pub fn new() -> (r: OwnedToken)
        ensures
            r@ == (OwnedView { token: fresh_ledger(), auth_token: None }),
    {
        OwnedToken { token: TokenState::new(), auth_token: None }
    }

    /// Fails with `Unauthorized` unless the call's incoming value holds at
    /// least one unit of the auth token.
    pub fn only_owner(&self, context: &Context) -> (r: Result<(), TokenError>)
        ensures
            r is Ok <==> holds_auth(self.auth_token, context@.incoming),
            r matches Err(e) ==> e == TokenError::Unauthorized,
    {
        match self.auth_token {
            None => Err(TokenError::Unauthorized),
            Some(auth) => {
                let incoming = &context.incoming_alkanes;
                let mut i: usize = 0;
                while i < incoming.len()
                    invariant
                        i <= incoming.len(),
                        self.auth_token == Some(auth),
                        incoming@ == context@.incoming,
                        forall|j: int| 0 <= j < i ==> !#[trigger] unit_of(incoming@[j], auth),
                    decreases incoming.len() - i,
                {
                    if incoming[i].id == auth && incoming[i].value >= 1 {
                        assert(unit_of(incoming@[i as int], auth));
                        
                        return Ok(());
                    }
                    i = i + 1;
                }
                Err(TokenError::Unauthorized)
            },
        }
    }

    /// Opcode 0, with `args` the operands after the opcode.
    fn initialize(&mut self, context: &Context, args: &mut Vec<u128>, response: CallResponse) -> (r: Result<Outcome, TokenError>)
        requires
            context@.inputs.len() > 0,
            old(args)@ == context@.inputs.drop_first(),
            response@ == forwarded(context@.incoming),
        ensures
            (final(self)@, outcome_view(r)) == owned_init(old(self)@, context@),
    {
        let ghost a = args@;
        self.token.observe_initialization()?;
        self.token.set_data(&context.payload);
        let auth_units = shift_or_err(args)?;
        let token_units = shift_or_err(args)?;
        let name = shift_or_err(args)?;
        let symbol = shift_or_err(args)?;
        assert(name == a[2] && symbol == a[3]);
        self.token.set_name_and_symbol(name, symbol)?;
        let minted = self.token.mint(context, token_units)?;
        Ok(Outcome::DeployAuthToken(PendingInit { auth_units, minted, response }))
    }

    /// Opcode 77, with `args` the operands after the opcode.
    fn mint_units(&mut self, context: &Context, args: &mut Vec<u128>, response: CallResponse) -> (r: Result<Outcome, TokenError>)
        requires
            context@.inputs.len() > 0,
            old(args)@ == context@.inputs.drop_first(),
            response@ == forwarded(context@.incoming),
        ensures
            (final(self)@, outcome_view(r)) == owned_mint(old(self)@, context@),
    {
        let mut response = response;
        self.only_owner(context)?;
        let token_units = shift_or_err(args)?;
        let transfer = self.token.mint(context, token_units)?;
        response.alkanes.push(transfer);
        Ok(Outcome::Reply(response))
    }

    /// Runs one call: the first operand selects the operation. An init call
    /// ends in a request to deploy the auth token; every other call in a
    /// reply that forwards the incoming value.
    pub fn execute(&mut self, context: &Context) -> (r: Result<Outcome, TokenError>)
        ensures
            (final(self)@, outcome_view(r)) == owned_step(old(self)@, context@),
    {
        let mut inputs = copy_operands(&context.inputs);
        let mut response = CallResponse::forward(&context.incoming_alkanes);
        let opcode = shift_or_err(&mut inputs)?;
        if opcode == 0 {
            self.initialize(context, &mut inputs, response)
        } else if opcode == 77 {
            self.mint_units(context, &mut inputs, response)
        } else if opcode == 99 {
            response.data = text_bytes(&self.token.name);
            Ok(Outcome::Reply(response))
        } else if opcode == 100 {
            response.data = text_bytes(&self.token.symbol);
            Ok(Outcome::Reply(response))
        } else if opcode == 101 {
            response.data = le_bytes(self.token.total_supply());
            Ok(Outcome::Reply(response))
        } else if opcode == 1000 {
            response.data = self.token.data();
            Ok(Outcome::Reply(response))
        } else {
            Err(TokenError::UnrecognizedOpcode)
        }
    }

    /// Finishes an init call with the transfer that deploying the auth token
    /// returned: the auth token becomes the one that gates minting, and the
    /// response hands out the auth-token units, then the initial token units.
    pub fn complete_init(&mut self, pending: PendingInit, auth: AlkaneTransfer) -> (r: CallResponse)
        ensures
            final(self)@ == (OwnedView { auth_token: Some(auth.id), ..old(self)@ }),
            r@ == init_completed(Outcome::DeployAuthToken(pending)@, auth),
    {
        let mut response = pending.response;
        response.alkanes.push(auth);
        response.alkanes.push(pending.minted);
        self.auth_token = Some(auth.id);
        response
    }
}

/// An owned-token contract run through `calls` in order: the final slots and
/// each call's result.
pub open spec fn owned_run(s: OwnedView, calls: Seq<CallView>) -> (OwnedView, Seq<Result<OutcomeView, TokenError>>)
    decreases calls.len(),
{
    if calls.len() == 0 {
        (s, Seq::empty())
    } else {
        let (s1, rs) = owned_run(s, calls.drop_last());
        let (s2, r) = owned_step(s1, calls.last());
        (s2, rs.push(r))
    }
}

/// The units that a successful mint reply hands out: its last transfer.
pub open spec fn owned_minted_amount(r: Result<OutcomeView, TokenError>) -> int {
    match r {
        Ok(OutcomeView::Reply(resp)) => resp.alkanes.last().value as int,
        _ => 0,
    }
}

/// The units that a list of mint replies hands out in all.
pub open spec fn owned_minted_total(rs: Seq<Result<OutcomeView, TokenError>>) -> int
    decreases rs.len(),
{
    if rs.len() == 0 {
        0
    } else {
        owned_minted_total(rs.drop_last()) + owned_minted_amount(rs.last())
    }
}

/// A new owned-token instance.
pub open spec fn fresh_owned() -> OwnedView {
    OwnedView { token: fresh_ledger(), auth_token: None }
}

/// Init runs once: on a new instance an init call with its four operands,
/// whose name and symbol decode, succeeds (it asks for the auth token); after
/// it, whichever auth token was installed, every init call fails with
/// `AlreadyInitialized` and changes nothing, whatever its operands.
pub proof fn lemma_owned_init_once(c1: CallView, c2: CallView, auth: Option<AlkaneId>)
    requires
        c1.inputs.len() >= 5,
        c1.inputs[0] == 0,
        packed_text(c1.inputs[3]) is Some,
        packed_text(c1.inputs[4]) is Some,
        c2.inputs.len() >= 1,
        c2.inputs[0] == 0,
    ensures
        owned_step(fresh_owned(), c1).1 is Ok,
        ({
            let s1 = OwnedView { auth_token: auth, ..owned_step(fresh_owned(), c1).0 };
            owned_step(s1, c2) == (s1, Err::<OutcomeView, TokenError>(TokenError::AlreadyInitialized))
        }),
{
}

/// The total supply never decreases, whatever the call and whether or not
/// it succeeds.
pub proof fn lemma_owned_supply_never_decreases(s: OwnedView, c: CallView)
    ensures
        owned_step(s, c).0.token.total_supply >= s.token.total_supply,
{
}

/// A run answers each call once.
proof fn lemma_owned_run_len(s: OwnedView, calls: Seq<CallView>)
    ensures
        owned_run(s, calls).1.len() == calls.len(),
    decreases calls.len(),
{
    if calls.len() > 0 {
        lemma_owned_run_len(s, calls.drop_last());
    }
}

/// After a sequence of successful mint calls the total supply has grown by
/// exactly the sum of the amounts that the calls minted.
pub proof fn lemma_owned_supply_is_sum_of_mints(s: OwnedView, calls: Seq<CallView>)
    requires
        all_mint_calls(calls),
        forall|i: int| 0 <= i < calls.len() ==> (#[trigger] owned_run(s, calls).1[i]) is Ok,
    ensures
        owned_run(s, calls).0.token.total_supply == s.token.total_supply + owned_minted_total(owned_run(s, calls).1),
    decreases calls.len(),
{
    if calls.len() > 0 {
        let prefix = calls.drop_last();
        let (s1, rs) = owned_run(s, prefix);
        let (s2, r) = owned_step(s1, calls.last());
        lemma_owned_run_len(s, prefix);
        assert(owned_run(s, calls).1 == rs.push(r));
        assert forall|i: int| 0 <= i < prefix.len() implies (#[trigger] owned_run(s, prefix).1[i]) is Ok by {
            assert(rs.push(r)[i] == rs[i]);
            assert(owned_run(s, calls).1[i] is Ok);
        }
        assert(all_mint_calls(prefix)) by {
            assert forall|i: int| 0 <= i < prefix.len() implies (#[trigger] prefix[i]).inputs.len() > 0 && prefix[i].inputs[0] == 77 by {
                assert(prefix[i] == calls[i]);
            }
        }
        lemma_owned_supply_is_sum_of_mints(s, prefix);
        assert(rs.push(r).drop_last() =~= rs);
        assert(calls[calls.len() - 1] == calls.last());
        assert(rs.push(r)[calls.len() - 1] == r);
    }
}

/// Authorization: a mint call whose incoming value lacks the auth token fails
/// with `Unauthorized` and changes nothing; the same call carrying a unit of
/// it mints the requested amount, when that fits in the supply.
pub proof fn lemma_authorization(s: OwnedView, c: CallView)
    requires
        c.inputs.len() >= 2,
        c.inputs[0] == 77,
    ensures
        !holds_auth(s.auth_token, c.incoming) ==> owned_step(s, c) == (s, Err::<OutcomeView, TokenError>(TokenError::Unauthorized)),
        holds_auth(s.auth_token, c.incoming) && s.token.total_supply + c.inputs[1] <= counter_max() ==> {
            &&& owned_step(s, c).1 == Ok::<OutcomeView, TokenError>(OutcomeView::Reply(ResponseView {
                alkanes: c.incoming.push(AlkaneTransfer { id: c.myself, value: c.inputs[1] }),
                data: Seq::empty(),
            }))
            &&& owned_step(s, c).0.token.total_supply == s.token.total_supply + c.inputs[1]
        },
{
}

impl Default for OwnedToken {
    fn default() -> (r: OwnedToken)
        ensures
            r@ == (OwnedView { token: fresh_ledger(), auth_token: None }),
    {
        OwnedToken::new()
    }
}

} // verus!
