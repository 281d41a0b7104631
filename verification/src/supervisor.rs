//! What the supervisor decides for each confirmed log and each pending
//! transaction, and how it reads its token list; the subscriptions and the
//! loop around them run outside.
use vstd::prelude::*;
use crate::address::{H160, parse_address, is_address_text, hex_value, address_digits};
use crate::arbitro::{PoolUpdate, update_of};
use crate::v_pool_sim::applied;
use crate::blockchain_db::{DexModel, TokenModel};
use crate::block_decoder::{
    AbisData,
    Decoder,
    DecodedTx,
    Transaction,
    action_of,
    ticks_fit,
    check_ticks_fit,
    decoded_call,
    unknown_call,
};
use crate::pool_action::{Log, PoolAction, log_event, event_topics, decodes_as};
use crate::simulacrum::Simulacrum;

verus! {

/// The tokens and exchanges a chain is watched for.
#[derive(Clone)]
pub struct ChainSettings {
    pub tokens: Vec<TokenModel>,
    pub factories: Vec<DexModel>,
}

/// What a confirmed log leads to: nothing (not a pool event), an event of a
/// pool the state does not know (where the state update fails), or the
/// update applied to the pool.
pub enum LogOutcome {
    Ignored,
    UnknownPool(H160),
    Applied(H160, PoolUpdate),
}

/// What a pending transaction leads to: nothing (no pool action), a tick
/// beyond the range of `i64` (where reading it fails), an action without a
/// recipient, or a phantom update, with whether the pool had phantom states.
pub enum PendingOutcome {
    NoAction,
    TickOutOfRange,
    NoRecipient,
    Noted(bool),
}

/// `d` is what decoding the transaction's input gives.
pub open spec fn decodes_tx(abis: AbisData, tx: Transaction, d: DecodedTx) -> bool {
    match tx.to {
        None => unknown_call(d, seq![0u8, 0u8, 0u8, 0u8], H160 { hi: 0, mid: 0, lo: 0 }),
        Some(to) => if tx.input@.len() < 4 {
            unknown_call(d, seq![0u8, 0u8, 0u8, 0u8], to)
        } else {
            decoded_call(abis, tx.input@, to, d)
        },
    }
}

/// The outcome of a pending transaction decoded as `d`.
pub open spec fn pending_outcome(d: DecodedTx, to: Option<H160>, sim: Simulacrum, r: PendingOutcome) -> bool {
    if !ticks_fit(d) {
        r is TickOutOfRange
    } else {
        match action_of(d) {
            None => r is NoAction,
            Some(_) => match to {
                None => r is NoRecipient,
                Some(t) => r matches PendingOutcome::Noted(b) && b == sim.watched(t),
            },
        }
    }
}

/// The addresses of the tokens, each spelled as an address.
pub open spec fn token_addresses_parse(tokens: Seq<TokenModel>, r: Seq<H160>) -> bool {
    &&& r.len() == tokens.len()
    &&& forall|i: int|
        0 <= i < tokens.len() ==> (#[trigger] r[i]).value() == hex_value(
            address_digits(tokens[i].address@),
        )
}

/// The supervisor's decisions.
pub struct Supervisor;

impl Supervisor {
    /// The token addresses, read from their texts: `None` when one of them
    /// is not an address (the case in which the supervisor stops).
    pub fn parse_token_addresses(tokens: &Vec<TokenModel>) -> (r: Option<Vec<H160>>)
        ensures
            r is None <==> exists|i: int|
                0 <= i < tokens@.len() && !is_address_text(#[trigger] tokens@[i].address@),
            r matches Some(v) ==> token_addresses_parse(tokens@, v@),
    {
        let mut out: Vec<H160> = Vec::new();
        let mut i: usize = 0;
        while i < tokens.len()
            invariant
                i <= tokens@.len(),
                out@.len() == i,
                forall|k: int| 0 <= k < i ==> is_address_text(#[trigger] tokens@[k].address@),
                forall|k: int|
                    0 <= k < i ==> (#[trigger] out@[k]).value() == hex_value(
                        address_digits(tokens@[k].address@),
                    ),
            decreases tokens@.len() - i,
        {
            match parse_address(tokens[i].address.as_str()) {
                Some(a) => {
                    out.push(a);
                },
                None => {
                    return None;
                },
            }
            i = i + 1;
        }
        Some(out)
    }

    /// A confirmed log: when it is a pool event, the main state applies it
    /// to the pool that emitted it, if it knows that pool.
    pub fn handle_log(sim: &mut Simulacrum, log: &Log) -> (r: LogOutcome)
        requires
            old(sim).origin().pools.wf(),
        ensures
            final(sim).origin().pools.wf(),
            !(r is Applied) ==> final(sim).origin().pools == old(sim).origin().pools,
            r matches LogOutcome::Applied(a, u) ==> final(sim).origin().pools.get_spec(a) matches Some(q)
                && applied(old(sim).origin().pools.get_spec(a)->0, u, q),
            forall|b: H160| b != log.address ==> #[trigger] final(sim).origin().pools.get_spec(b) == old(
                sim,
            ).origin().pools.get_spec(b),
            final(sim).origin().pools_by_token == old(sim).origin().pools_by_token,
            forall|k: H160| #[trigger] final(sim).phantoms(k) == old(sim).phantoms(k),
            forall|k: H160| #[trigger] final(sim).watched(k) == old(sim).watched(k),
            r is Ignored <==> log_event(log.topics@, log.data@, event_topics()) < 0,
            r matches LogOutcome::UnknownPool(a) ==> a == log.address && old(
                sim,
            ).origin().pools.get_spec(a) is None,
            r matches LogOutcome::Applied(a, u) ==> a == log.address && old(
                sim,
            ).origin().pools.get_spec(a) is Some && exists|act: PoolAction|
                decodes_as(act, log_event(log.topics@, log.data@, event_topics()), log.data@)
                    && u == update_of(act),
    {
        match PoolAction::parse_pool_action(log) {
            Some((action, addr)) => {
                if sim.knows_pool(&addr) {
                    let u = sim.update_main_state(&addr, action);
                    LogOutcome::Applied(addr, u)
                } else {
                    LogOutcome::UnknownPool(addr)
                }
            },
            None => LogOutcome::Ignored,
        }
    }

    /// A pending transaction: decoded against the known ABIs; a pool action
    /// with a recipient becomes a phantom update of that pool.
    pub fn handle_pending_tx(sim: &mut Simulacrum, abis: &AbisData, tx: &Transaction) -> (r:
        PendingOutcome)
        ensures
            final(sim).origin() == old(sim).origin(),
            forall|k: H160| #[trigger] final(sim).phantoms(k) == old(sim).phantoms(k),
            forall|k: H160| #[trigger] final(sim).watched(k) == old(sim).watched(k),
            exists|d: DecodedTx| decodes_tx(*abis, *tx, d) && pending_outcome(d, tx.to, *old(sim), r),
    {
        let decoded = Decoder::decode_tx_static(abis, tx);
        let ghost d = decoded;
        proof {
            assert(decodes_tx(*abis, *tx, d));
        }
        if !check_ticks_fit(&decoded) {
            let r = PendingOutcome::TickOutOfRange;
            assert(pending_outcome(d, tx.to, *old(sim), r));
            return r;
        }
        let r = match Decoder::decode_tx_to_action(decoded) {
            None => PendingOutcome::NoAction,
            Some(action) => match tx.to {
                Some(to_addr) => PendingOutcome::Noted(sim.update_phanton_state(&to_addr, action)),
                None => PendingOutcome::NoRecipient,
            },
        };
        assert(pending_outcome(d, tx.to, *old(sim), r));
        r
    }
}

} // verus!
