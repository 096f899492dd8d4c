//! The canonical order and the capability that signs it.
//!
//! Keys are never held here. A signer is anything that can name its
//! address and sign an order as typed structured data bound to a chain and
//! an exchange contract: a local key, a hardware device, a remote service.

use crate::error::Error;
use crate::primitives::{Address, U256};
use vstd::prelude::*;

verus! {

/// An order as the exchange contract hashes it, before it is signed.
#[derive(Debug, Clone, Copy)]
pub struct Order {
    /// Sets otherwise identical orders apart; no security rests on it.
    pub salt: u64,
    /// The account that funds the order.
    pub maker: Address,
    /// The account whose key signs.
    pub signer: Address,
    /// The only account that may take the order; the zero address for anyone.
    pub taker: Address,
    pub token_id: U256,
    pub maker_amount: u32,
    pub taker_amount: u32,
    /// When the order lapses, in seconds since the epoch; 0 for never.
    pub expiration: u64,
    pub nonce: U256,
    pub fee_rate_bps: u32,
    /// 0 for a buy, 1 for a sell.
    pub side: u8,
    pub signature_type: u8,
}

/// The content of an order.
pub struct OrderView {
    pub salt: u64,
    pub maker: Seq<u8>,
    pub signer: Seq<u8>,
    pub taker: Seq<u8>,
    pub token_id: nat,
    pub maker_amount: u32,
    pub taker_amount: u32,
    pub expiration: u64,
    pub nonce: nat,
    pub fee_rate_bps: u32,
    pub side: u8,
    pub signature_type: u8,
}

impl View for Order {
    type V = OrderView;

    open spec fn view(&self) -> OrderView {
        OrderView {
            salt: self.salt,
            maker: self.maker@,
            signer: self.signer@,
            taker: self.taker@,
            token_id: self.token_id@,
            maker_amount: self.maker_amount,
            taker_amount: self.taker_amount,
            expiration: self.expiration,
            nonce: self.nonce@,
            fee_rate_bps: self.fee_rate_bps,
            side: self.side,
            signature_type: self.signature_type,
        }
    }
}

/// What a signature is bound to besides the order: the chain and the
/// exchange contract that will verify it.
#[derive(Debug, Clone, Copy)]
pub struct SigningDomain {
    pub chain_id: u64,
    pub verifying_contract: Address,
}

/// The capability to sign orders. Nothing is assumed of an implementation.
pub trait EthSigner {
    /// The address of the signing key.
    fn address(&self) -> Address;

    /// Signs the order as typed structured data under the domain. Returns the
    /// signature as hexadecimal text, or the reason for refusing.
    fn sign_typed_data(&self, domain: &SigningDomain, order: &Order) -> Result<String, String>;
}

impl SigningDomain {
    /// The domain of the exchange at `verifying_contract` on the chain
    /// `chain_id`.
    pub fn new(chain_id: u64, verifying_contract: Address) -> (domain: Self)
        ensures
            domain == (SigningDomain { chain_id, verifying_contract }),
    {
        SigningDomain { chain_id, verifying_contract }
    }
}

/// Whether `answer` is what the signer gave when it was asked to sign
/// `order` under `domain`: this signer, this domain, this order, and no
/// others.
pub open spec fn answers<S: EthSigner>(
    signer: S,
    domain: SigningDomain,
    order: Order,
    answer: Result<String, String>,
) -> bool {
    call_ensures(S::sign_typed_data, (&signer, &domain, &order), answer)
}

/// What the library reports for each answer of a signer: the signature as it
/// came, or `SigningFailure` with the signer's message as it came.
pub open spec fn signing_report(answer: Result<String, String>, report: Result<String, Error>)
    -> bool {
    report == (match answer {
        Ok(signature) => Ok::<String, Error>(signature),
        Err(reason) => Err(Error::SigningFailure(reason)),
    })
}

/// Turns a signer's answer into the library's result.
pub fn signing_outcome(answer: Result<String, String>) -> (report: Result<String, Error>)
    ensures
        signing_report(answer, report),
{
    match answer {
        Ok(signature) => Ok(signature),
        Err(reason) => Err(Error::SigningFailure(reason)),
    }
}

/// Has the signer sign `order` for the exchange at `exchange` on chain
/// `chain_id`. The signer is asked once, with exactly this order and the
/// domain of this chain and this exchange; its signature is returned as it
/// came, and its refusal as `SigningFailure` with the message as it came.
pub fn sign_order_message<S: EthSigner>(
    signer: &S,
    order: &Order,
    chain_id: u64,
    exchange: Address,
) -> (report: Result<String, Error>)
    ensures
        match report {
            Ok(signature) => answers(
                *signer,
                SigningDomain { chain_id, verifying_contract: exchange },
                *order,
                Ok(signature),
            ),
            Err(e) => e matches Error::SigningFailure(reason) && answers(
                *signer,
                SigningDomain { chain_id, verifying_contract: exchange },
                *order,
                Err(reason),
            ),
        },
{
    let domain = SigningDomain::new(chain_id, exchange);
    signing_outcome(signer.sign_typed_data(&domain, order))
}

} // verus!
