//! The billing module ("b"): gold packs and changing gold into silver.
use crate::modules::{
    as_object,
    get_i32_field,
    get_str_field,
    i32_field,
    reply,
    request_data,
    str_field,
    str_result,
    KEY_NOT_FOUND,
    MISSING_FIELD,
};
use crate::value::{seq_model, Object, SpecValue, Value};
use vstd::prelude::*;

verus! {

/// The billing module.
pub struct Billing {
    pub prefix: &'static str,
}

/// What a billing command asks for.
pub enum BillingCommand {
    /// "chkprchs": a gold pack was bought.
    CheckPurchase,
    /// "bs": change gold into silver.
    BuySilver,
}

/// The gold a pack gives, bonus included; an unknown pack gives none.
pub open spec fn pack_amount_spec(pack: Seq<char>) -> i32 {
    if pack == "pack10"@ {
        10
    } else if pack == "pack30"@ {
        32
    } else if pack == "pack50"@ {
        55
    } else if pack == "pack100"@ {
        120
    } else if pack == "pack200"@ {
        260
    } else if pack == "pack500"@ {
        700
    } else if pack == "pack1000"@ {
        1450
    } else if pack == "pack1500"@ {
        2200
    } else if pack == "pack2500"@ {
        4000
    } else if pack == "pack5000"@ {
        7000
    } else if pack == "pack9999"@ {
        13999
    } else {
        0
    }
}

/// The billing command named by the second piece of a command name.
pub open spec fn billing_command_spec(segment: Seq<char>) -> Option<BillingCommand> {
    if segment == "chkprchs"@ {
        Some(BillingCommand::CheckPurchase)
    } else if segment == "bs"@ {
        Some(BillingCommand::BuySilver)
    } else {
        None
    }
}

/// What changing gold into silver does.
pub enum SilverExchange {
    /// The player has less gold than it offers: nothing happens.
    Refused,
    /// Add `gold_change` to the gold and `silver` to the silver.
    Exchange { gold_change: i32, silver: i32 },
    /// The amount cannot be negated, or its hundredfold does not fit, which
    /// the server does not survive; where only the hundredfold fails, the gold
    /// is taken first (`taken`, what is added to it).
    Overflow { taken: Option<i32> },
}

/// What offering `amount` gold for silver does while holding `gold`: one
/// gold gives a hundred silver.
pub open spec fn silver_exchange_spec(amount: i32, gold: i32) -> SilverExchange {
    if amount > gold {
        SilverExchange::Refused
    } else if amount == i32::MIN {
        SilverExchange::Overflow { taken: None }
    } else if amount * 100 < i32::MIN || amount * 100 > i32::MAX {
        SilverExchange::Overflow { taken: Some((-amount) as i32) }
    } else {
        SilverExchange::Exchange { gold_change: (-amount) as i32, silver: (amount * 100) as i32 }
    }
}

impl Billing {
    pub fn new() -> (r: Billing)
        ensures
            r.prefix@ == "b"@,
    {
        Billing { prefix: "b" }
    }

    /// The command named by the second piece of a command name.
    pub fn command(&self, segment: &str) -> (r: Option<BillingCommand>)
        ensures
            r == billing_command_spec(segment@),
    {
        let s = segment.to_owned();
        if s == "chkprchs".to_owned() {
            Some(BillingCommand::CheckPurchase)
        } else if s == "bs".to_owned() {
            Some(BillingCommand::BuySilver)
        } else {
            None
        }
    }

    /// The pack of a purchase: "prid" in the data.
    pub fn purchase_request(&self, msg: &Vec<Value>) -> (r: Result<String, &'static str>)
        requires
            msg@.len() > 2,
        ensures
            str_result(r) == (match as_object(seq_model(msg@)[2]) {
                Ok(data) => str_field(data, "prid"@, KEY_NOT_FOUND),
                Err(e) => Err(e),
            }),
    {
        let data = request_data(msg)?;
        get_str_field(data, "prid", KEY_NOT_FOUND)
    }

    /// The gold a pack gives (see [`pack_amount_spec`]).
    pub fn pack_amount(&self, pack: &str) -> (r: i32)
        ensures
            r == pack_amount_spec(pack@),
    {
        let p = pack.to_owned();
        if p == "pack10".to_owned() {
            10
        } else if p == "pack30".to_owned() {
            32
        } else if p == "pack50".to_owned() {
            55
        } else if p == "pack100".to_owned() {
            120
        } else if p == "pack200".to_owned() {
            260
        } else if p == "pack500".to_owned() {
            700
        } else if p == "pack1000".to_owned() {
            1450
        } else if p == "pack1500".to_owned() {
            2200
        } else if p == "pack2500".to_owned() {
            4000
        } else if p == "pack5000".to_owned() {
            7000
        } else if p == "pack9999".to_owned() {
            13999
        } else {
            0
        }
    }

    /// The reply to a purchase: "b.ingld" with the gold it gave.
    pub fn purchase_reply(&self, amount: i32) -> (r: Vec<Value>)
        ensures
            seq_model(r@) == seq![
                SpecValue::Str("b.ingld"@),
                SpecValue::Object(seq![("ingld"@, SpecValue::I32(amount))]),
            ],
    {
        let mut data = Object::new();
        data.push_entry("ingld", Value::I32(amount));
        reply("b.ingld", data)
    }

    /// The gold offered for silver: "gld" in the data.
    pub fn silver_request(&self, msg: &Vec<Value>) -> (r: Result<i32, &'static str>)
        requires
            msg@.len() > 2,
        ensures
            r == (match as_object(seq_model(msg@)[2]) {
                Ok(data) => i32_field(data, "gld"@, MISSING_FIELD),
                Err(e) => Err(e),
            }),
    {
        let data = request_data(msg)?;
        get_i32_field(data, "gld", MISSING_FIELD)
    }

    /// What offering `amount` gold for silver does (see [`silver_exchange_spec`]).
    pub fn buy_silver(&self, amount: i32, gold: i32) -> (r: SilverExchange)
        ensures
            r == silver_exchange_spec(amount, gold),
    {
        if amount > gold {
            return SilverExchange::Refused;
        }
        if amount == i32::MIN {
            return SilverExchange::Overflow { taken: None };
        }
        let gold_change = -amount;
        match amount.checked_mul(100) {
            Some(silver) => SilverExchange::Exchange { gold_change, silver },
            None => SilverExchange::Overflow { taken: Some(gold_change) },
        }
    }

    /// The reply to an exchange: "b.inslv" with the silver it gave.
    pub fn silver_reply(&self, silver: i32) -> (r: Vec<Value>)
        ensures
            seq_model(r@) == seq![
                SpecValue::Str("b.inslv"@),
                SpecValue::Object(seq![("inslv"@, SpecValue::I32(silver))]),
            ],
    {
        let mut data = Object::new();
        data.push_entry("inslv", Value::I32(silver));
        reply("b.inslv", data)
    }
}

} // verus!
