//! The payload model: a minimal coinbase transaction. The ledger treats
//! a block's payload as an opaque blob; these types give callers a way
//! to shape a genesis reward before flattening it into that blob.

use vstd::prelude::*;
use crate::errors::Error;
use vstd::string::StringExecFns;

verus! {

/// A reference to an output of an earlier transaction.
#[derive(Debug, Clone, PartialEq)]
pub struct TXInput {
    pub txid: String,
    pub vout: i32,
    pub script_sig: String,
}

/// A spendable amount locked to a key.
#[derive(Debug, Clone, PartialEq)]
pub struct TXOutput {
    pub value: i32,
    pub script_pub_key: String,
}

/// A transaction: one set of inputs spent into one set of outputs.
#[derive(Debug, Clone, PartialEq)]
pub struct Transaction {
    pub id: String,
    pub vin: Vec<TXInput>,
    pub vout: Vec<TXOutput>,
}

impl Transaction {
    /// Builds a coinbase transaction: no real input, one reward output
    /// of value 100 locked to `to`. An empty `data` is replaced by the
    /// standard reward note.
    pub fn new_coinbase(to: String, data: String) -> (r: Result<Transaction, Error>)
        ensures
            r is Ok,
            ({
                let t = r->Ok_0;
                &&& t.id@.len() == 0
                &&& t.vin@.len() == 1
                &&& t.vin@[0].txid@.len() == 0
                &&& t.vin@[0].vout == -1
                &&& t.vin@[0].script_sig@ == if data@.len() == 0 {
                    "Reward to '"@ + to@ + "'"@
                } else {
                    data@
                }
                &&& t.vout@.len() == 1
                &&& t.vout@[0].value == 100
                &&& t.vout@[0].script_pub_key@ == to@
            }),
    {
        let script_sig = if data.as_str().is_empty() {
            let opening = "Reward to '".to_owned().concat(to.as_str());
            opening.concat("'")
        } else {
            data
        };
        let mut vin: Vec<TXInput> = Vec::new();
        vin.push(TXInput { txid: String::new(), vout: -1, script_sig });
        let mut vout: Vec<TXOutput> = Vec::new();
        vout.push(TXOutput { value: 100, script_pub_key: to });
        Ok(Transaction { id: String::new(), vin, vout })
    }
}

} // verus!
