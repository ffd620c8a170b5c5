use vstd::prelude::*;

use crate::error::TokenError;

verus! {

/// The identity of a contract instance, and of the token it issues.
#[derive(Debug, Clone, Copy, PartialEq, Eq, Structural)]
pub struct AlkaneId {
    pub block: u128,
    pub tx: u128,
}

/// An amount of one token, newly minted or forwarded.
#[derive(Debug, Clone, Copy, PartialEq, Eq, Structural)]
pub struct AlkaneTransfer {
    pub id: AlkaneId,
    pub value: u128,
}

/// One call into a contract instance, as the host hands it over.
pub struct Context {
    /// This contract instance.
    pub myself: AlkaneId,
    /// The contract or account that made the call.
    pub caller: AlkaneId,
    /// The token value that the host attached to the call.
    pub incoming_alkanes: Vec<AlkaneTransfer>,
    /// The opcode followed by its operands.
    pub inputs: Vec<u128>,
    /// The contract-data blob that the host found with the call; the init
    /// opcode stores it.
    pub payload: Vec<u8>,
}

/// A call as plain values.
pub struct CallView {
    pub myself: AlkaneId,
    pub caller: AlkaneId,
    pub incoming: Seq<AlkaneTransfer>,
    pub inputs: Seq<u128>,
    pub payload: Seq<u8>,
}

impl View for Context {
    type V = CallView;

    open spec fn view(&self) -> CallView {
        CallView {
            myself: self.myself,
            caller: self.caller,
            incoming: self.incoming_alkanes@,
            inputs: self.inputs@,
            payload: self.payload@,
        }
    }
}

/// The answer to a call: output bytes and the transfers it emits.
pub struct CallResponse {
    pub alkanes: Vec<AlkaneTransfer>,
    pub data: Vec<u8>,
}

/// A call response as plain sequences.
pub struct ResponseView {
    pub alkanes: Seq<AlkaneTransfer>,
    pub data: Seq<u8>,
}

impl View for CallResponse {
    type V = ResponseView;

    open spec fn view(&self) -> ResponseView {
        ResponseView { alkanes: self.alkanes@, data: self.data@ }
    }
}

/// The response that forwards `incoming` and carries no data.
pub open spec fn forwarded(incoming: Seq<AlkaneTransfer>) -> ResponseView {
    ResponseView { alkanes: incoming, data: Seq::empty() }
}

/// A reply that forwards the incoming value and carries `data`.
pub open spec fn reply(c: CallView, data: Seq<u8>) -> Result<ResponseView, TokenError> {
    Ok(ResponseView { data, ..forwarded(c.incoming) })
}

/// Whether every call of `calls` is a mint call (opcode 77).
pub open spec fn all_mint_calls(calls: Seq<CallView>) -> bool {
    forall|i: int| 0 <= i < calls.len() ==> (#[trigger] calls[i]).inputs.len() > 0 && calls[i].inputs[0] == 77
}

/// A result whose response is seen through its view.
pub open spec fn result_view(r: Result<CallResponse, TokenError>) -> Result<ResponseView, TokenError> {
    match r {
        Ok(resp) => Ok(resp@),
        Err(e) => Err(e),
    }
}

/// Copies a list of transfers.
pub fn copy_transfers(v: &Vec<AlkaneTransfer>) -> (r: Vec<AlkaneTransfer>)
    ensures
        r@ == v@,
{
    let mut out: Vec<AlkaneTransfer> = Vec::new();
    let mut i: usize = 0;
    while i < v.len()
        invariant
            i <= v.len(),
            out@ == v@.take(i as int),
        decreases v.len() - i,
    {
        out.push(v[i]);
        assert(out@ =~= v@.take(i + 1));
        i = i + 1;
    }
    assert(v@.take(v.len() as int) =~= v@);
    out
}

impl CallResponse {
    /// A response that hands the call's incoming value back unchanged and
    /// carries no data.
    pub fn forward(incoming: &Vec<AlkaneTransfer>) -> (r: CallResponse)
        ensures
            r@ == forwarded(incoming@),
    {
        CallResponse { alkanes: copy_transfers(incoming), data: Vec::new() }
    }
}

/// Copies a list of operands.
pub fn copy_operands(v: &Vec<u128>) -> (r: Vec<u128>)
    ensures
        r@ == v@,
{
    let mut out: Vec<u128> = Vec::new();
    let mut i: usize = 0;
    while i < v.len()
        invariant
            i <= v.len(),
            out@ == v@.take(i as int),
        decreases v.len() - i,
    {
        out.push(v[i]);
        assert(out@ =~= v@.take(i + 1));
        i = i + 1;
    }
    assert(v@.take(v.len() as int) =~= v@);
    out
}

/// Takes the first operand off `inputs`, or fails with `MissingOperand`
/// (leaving `inputs` as it was) when none is left.
pub fn shift_or_err(inputs: &mut Vec<u128>) -> (r: Result<u128, TokenError>)
    ensures
        old(inputs)@.len() == 0 ==> r == Err::<u128, TokenError>(TokenError::MissingOperand)
            && final(inputs)@ == old(inputs)@,
        old(inputs)@.len() > 0 ==> r == Ok::<u128, TokenError>(old(inputs)@[0])
            && final(inputs)@ == old(inputs)@.drop_first(),
{
    if inputs.len() == 0 {
        Err(TokenError::MissingOperand)
    } else {
        let v = inputs.remove(0);
        assert(old(inputs)@.remove(0) =~= old(inputs)@.drop_first());
        Ok(v)
    }
}

} // verus!
