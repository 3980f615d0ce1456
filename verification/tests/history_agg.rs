use montui::history::{HistoryAggregator, StatsSample};

fn sample(v: u64) -> StatsSample {
    StatsSample {
        cpu_centi_percent: v,
        mem_centi_percent: v * 2,
        net_rx_centi_kb: v * 3,
        net_tx_centi_kb: v * 4,
    }
}

#[test]
fn unknown_identity_has_no_history() {
    let agg = HistoryAggregator::new();
    assert!(agg.get("nothing").is_none());
}

#[test]
fn first_record_creates_history_lazily() {
    let mut agg = HistoryAggregator::new();
    agg.record("c1", sample(1));
    let h = agg.get("c1").unwrap();
    assert_eq!(h.len(), 1);
    assert_eq!(h[0], sample(1));
    assert!(agg.get("c2").is_none());
}

#[test]
fn seventy_records_retain_last_sixty_in_order() {
    let mut agg = HistoryAggregator::new();
    for v in 0..70u64 {
        agg.record("c1", sample(v));
    }
    let h = agg.get("c1").unwrap();
    assert_eq!(h.len(), 60);
    for (k, s) in h.iter().enumerate() {
        assert_eq!(*s, sample(10 + k as u64));
    }
}

#[test]
fn identities_keep_separate_histories() {
    let mut agg = HistoryAggregator::new();
    agg.record("a", sample(1));
    agg.record("b", sample(2));
    agg.record("a", sample(3));
    let ha = agg.get("a").unwrap();
    let hb = agg.get("b").unwrap();
    assert_eq!(ha.len(), 2);
    assert_eq!(ha[1], sample(3));
    assert_eq!(hb.len(), 1);
    assert_eq!(agg.len(), 2);
}

#[test]
fn disappeared_identity_lingers() {
    let mut agg = HistoryAggregator::new();
    agg.record("gone", sample(9));
    // The inventory no longer lists "gone"; its history stays available.
    agg.record("still-here", sample(1));
    assert!(agg.get("gone").is_some());
    assert_eq!(agg.len(), 2);
}
