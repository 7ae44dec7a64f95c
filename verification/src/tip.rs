//! The record of one tip.

use vstd::prelude::*;
use crate::address::Address;

verus! {

/// What a tip record says, as plain mathematical values.
#[verifier::ext_equal]
pub struct TipView {
    pub id: u64,
    pub from: Seq<char>,
    pub to: Seq<char>,
    pub amount: i128,
    pub message: Seq<char>,
    pub timestamp: u64,
}

/// One tip: who sent how much to whom, with what words, and when.
///
/// A record is written once and never changed afterwards.
#[derive(Debug)]
pub struct Tip {
    pub id: u64,
    pub from: Address,
    pub to: Address,
    pub amount: i128,
    pub message: String,
    pub timestamp: u64,
}

impl View for Tip {
    type V = TipView;

    open spec fn view(&self) -> TipView {
        TipView {
            id: self.id,
            from: self.from@,
            to: self.to@,
            amount: self.amount,
            message: self.message@,
            timestamp: self.timestamp,
        }
    }
}

impl Clone for Tip {
    fn clone(&self) -> (r: Tip)
        ensures
            r == *self,
    {
        Tip {
            id: self.id,
            from: self.from.clone(),
            to: self.to.clone(),
            amount: self.amount,
            message: self.message.clone(),
            timestamp: self.timestamp,
        }
    }
}

impl PartialEq for Tip {
    fn eq(&self, other: &Tip) -> (r: bool) {
        self.id == other.id && self.from == other.from && self.to == other.to && self.amount
            == other.amount && self.message == other.message && self.timestamp == other.timestamp
    }
}

impl Eq for Tip {

}

impl vstd::std_specs::cmp::PartialEqSpecImpl for Tip {
    open spec fn obeys_eq_spec() -> bool {
        true
    }

    open spec fn eq_spec(&self, other: &Tip) -> bool {
        self@ == other@
    }
}

/// The views of a sequence of tips, one for one.
pub open spec fn tip_views(tips: Seq<Tip>) -> Seq<TipView> {
    tips.map_values(|t: Tip| t@)
}

} // verus!
