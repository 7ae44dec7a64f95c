use std::collections::HashMap;

use tipstar::{
    collect_present, latest_ids, paginate, submit, Address, CreatorStats, Tip, TipError, TipStar,
    DEFAULT_CREATOR_PAGE, DEFAULT_RECENT_PAGE,
};

/// A ledger whose parts lie apart, each under a key of its own, and are
/// fetched one by one for each operation.
struct Parts {
    counter: Option<u64>,
    tips: HashMap<u64, Tip>,
    creator_tips: HashMap<String, Vec<u64>>,
    creator_stats: HashMap<String, CreatorStats>,
    recent: Option<Vec<u64>>,
}

impl Parts {
    fn new() -> Parts {
        Parts {
            counter: None,
            tips: HashMap::new(),
            creator_tips: HashMap::new(),
            creator_stats: HashMap::new(),
            recent: None,
        }
    }

    fn send_tip(
        &mut self,
        from: &str,
        to: &str,
        amount: i128,
        message: &str,
        authorized: bool,
        timestamp: u64,
    ) -> Result<u64, TipError> {
        let counter = self.counter.unwrap_or(0);
        let mut index = self.creator_tips.get(to).cloned().unwrap_or_default();
        let mut stats = match self.creator_stats.get(to) {
            Some(stats) => stats.clone(),
            None => CreatorStats::new(Address::from_str(to)),
        };
        let mut recent = self.recent.clone().unwrap_or_default();
        let id = submit(authorized, amount, timestamp, counter, &mut index, &mut stats, &mut recent)?;
        self.counter = Some(id);
        self.tips.insert(
            id,
            Tip {
                id,
                from: Address::from_str(from),
                to: Address::from_str(to),
                amount,
                message: String::from(message),
                timestamp,
            },
        );
        self.creator_tips.insert(String::from(to), index);
        self.creator_stats.insert(String::from(to), stats);
        self.recent = Some(recent);
        Ok(id)
    }

    fn load_tips(&self, ids: &[u64]) -> Vec<Tip> {
        collect_present(ids.iter().map(|id| self.tips.get(id).cloned()).collect())
    }

    fn get_creator_tips(&self, creator: &str, limit: Option<u32>, offset: Option<u32>) -> Vec<Tip> {
        let index = self.creator_tips.get(creator).cloned().unwrap_or_default();
        self.load_tips(&paginate(&index, limit, DEFAULT_CREATOR_PAGE, offset))
    }

    fn get_recent_tips(&self, limit: Option<u32>) -> Vec<Tip> {
        let recent = self.recent.clone().unwrap_or_default();
        self.load_tips(&latest_ids(&recent, limit, DEFAULT_RECENT_PAGE))
    }

    fn get_creator_stats(&self, creator: &str) -> CreatorStats {
        match self.creator_stats.get(creator) {
            Some(stats) => stats.clone(),
            None => CreatorStats::new(Address::from_str(creator)),
        }
    }
}

#[test]
fn parts_kept_apart_agree_with_the_ledger() {
    let mut parts = Parts::new();
    let mut ledger = TipStar::new();
    let creators = ["ada", "bob", "cyd", "dee", "eve", "fay", "gus"];

    for n in 0..260u64 {
        let to = creators[((n * n + 3 * n) % 7) as usize];
        let from = creators[(n % 5) as usize];
        let amount = match n % 13 {
            0 => 0,
            7 => -5,
            _ => (n as i128) * 3 + 1,
        };
        let authorized = n % 17 != 4;
        let message = format!("tip {}", n);
        let apart = parts.send_tip(from, to, amount, &message, authorized, 1000 + n);
        let whole = ledger.send_tip(
            Address::from_str(from),
            Address::from_str(to),
            amount,
            message.clone(),
            authorized,
            1000 + n,
        );
        assert_eq!(apart, whole);
        assert_eq!(parts.counter.unwrap_or(0), ledger.get_total_tip_count());
    }

    assert_eq!(ledger.get_total_tip_count(), 206);
    for id in 0..=207u64 {
        assert_eq!(parts.tips.get(&id).cloned().ok_or(TipError::NotFound), ledger.get_tip(id));
    }
    for creator in creators.iter().chain(["nobody"].iter()) {
        assert_eq!(
            parts.get_creator_stats(creator),
            ledger.get_creator_stats(Address::from_str(creator))
        );
        for (limit, offset) in [
            (None, None),
            (Some(0), None),
            (Some(1), Some(0)),
            (Some(7), Some(3)),
            (Some(200), Some(1)),
            (None, Some(25)),
            (Some(5), Some(1000)),
        ] {
            assert_eq!(
                parts.get_creator_tips(creator, limit, offset),
                ledger.get_creator_tips(Address::from_str(creator), limit, offset)
            );
        }
    }
    for limit in [None, Some(0), Some(1), Some(20), Some(99), Some(100), Some(101), Some(9999)] {
        assert_eq!(parts.get_recent_tips(limit), ledger.get_recent_tips(limit));
    }
    assert_eq!(parts.recent.as_ref().map(|recent| recent.len()), Some(100));
    assert_eq!(parts.recent.as_ref().and_then(|recent| recent.first().copied()), Some(107));
}

#[test]
fn missing_records_are_passed_over() {
    let mut parts = Parts::new();
    for n in 1..=6u64 {
        parts.send_tip("fan", "creator", n as i128, "m", true, n).unwrap();
    }
    parts.tips.remove(&2);
    parts.tips.remove(&5);
    let ids: Vec<u64> = parts.get_creator_tips("creator", None, None).iter().map(|t| t.id).collect();
    assert_eq!(ids, vec![6, 4, 3, 1]);
    let ids: Vec<u64> = parts.get_recent_tips(Some(3)).iter().map(|t| t.id).collect();
    assert_eq!(ids, vec![6, 4]);
}
