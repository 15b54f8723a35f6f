//! The connector interfaces' plain parts: batch writing, subscriptions, WebSocket
//! connections, and the modern connector's data; and how a batch of per-symbol
//! subscription outcomes is summed up.
use vstd::prelude::*;
use crate::text::owned;
use crate::types::config::BatchSubscriptionResult;

pub mod batch_writer;
pub mod modern;
pub mod modern_binance;
pub mod subscription_manager;
pub mod websocket_manager;

verus! {

/// The symbols among the first `n` whose subscription succeeded (`None` outcome).
pub open spec fn symbols_succeeded(outcomes: Seq<Option<String>>, n: int) -> int
    decreases n,
{
    if n <= 0 {
        0
    } else {
        symbols_succeeded(outcomes, n - 1) + if outcomes[n - 1] is None { 1int } else { 0 }
    }
}

/// The failed symbols among the first `n`, each with its error's text.
pub open spec fn symbols_failed(symbols: Seq<String>, outcomes: Seq<Option<String>>, n: int) -> Seq<(Seq<char>, Seq<char>)>
    decreases n,
{
    if n <= 0 {
        seq![]
    } else {
        symbols_failed(symbols, outcomes, n - 1) + match outcomes[n - 1] {
            Some(e) => seq![(symbols[n - 1]@, e@)],
            None => seq![],
        }
    }
}

/// Sums up the order-book subscriptions of a batch of symbols, one outcome per symbol
/// (`None` for success, else the error's text).
pub fn summarize_symbol_batch(symbols: &Vec<String>, outcomes: &Vec<Option<String>>) -> (r: BatchSubscriptionResult)
    requires
        symbols@.len() == outcomes@.len(),
    ensures
        r.total_requested == symbols@.len(),
        r.successful == symbols_succeeded(outcomes@, symbols@.len() as int),
        modern::pair_views(r.failed_symbols@) == symbols_failed(symbols@, outcomes@, symbols@.len() as int),
        r.failed == r.failed_symbols@.len(),
        r.pending == 0,
        r.results@.len() == 0,
{
    let n = symbols.len();
    let mut ok: usize = 0;
    let mut failed: Vec<(String, String)> = Vec::new();
    let mut i: usize = 0;
    while i < n
        invariant
            n == symbols@.len(),
            n == outcomes@.len(),
            i <= n,
            ok == symbols_succeeded(outcomes@, i as int),
            ok <= i,
            modern::pair_views(failed@) == symbols_failed(symbols@, outcomes@, i as int),
        decreases n - i,
    {
        let ghost f0 = failed@;
        match &outcomes[i] {
            None => {
                ok = ok + 1;
            },
            Some(e) => {
                failed.push((owned(symbols[i].as_str()), owned(e.as_str())));
            },
        }
        assert(modern::pair_views(failed@) =~= symbols_failed(symbols@, outcomes@, i + 1));
        i = i + 1;
    }
    let nf = failed.len();
    BatchSubscriptionResult { total_requested: n, successful: ok, failed: nf, pending: 0, failed_symbols: failed, results: Vec::new() }
}

/// Every symbol of a batch is counted once: as a success or among the failures.
pub proof fn lemma_symbol_batch_accounts_for_all(symbols: Seq<String>, outcomes: Seq<Option<String>>, n: int)
    requires
        0 <= n <= outcomes.len(),
    ensures
        symbols_succeeded(outcomes, n) + symbols_failed(symbols, outcomes, n).len() == n,
    decreases n,
{
    if n > 0 {
        lemma_symbol_batch_accounts_for_all(symbols, outcomes, n - 1);
    }
}

} // verus!
