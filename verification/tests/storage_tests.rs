use prediction_market::event::{
    clear_events, insert_event, MarketEvent, EVENT_BET_UPDATE, EVENT_MARKET_UPDATE,
    EVENT_PLAYER_UPDATE,
};
use prediction_market::market::MarketData;

fn sample_market() -> MarketData {
    let mut m = MarketData::new_with_title_u64_and_liquidity(
        vec![0x207469206c6c6957, 0x3f6e696172],
        100,
        200,
        300,
        1_000,
        1_000,
        10_000,
    )
    .unwrap();
    m.place_bet(1, 10_000).unwrap();
    m.place_bet(0, 5_000).unwrap();
    m
}

#[test]
fn stored_layout_is_fixed() {
    let m = sample_market();
    let mut data: Vec<u64> = vec![42];
    m.to_data(&mut data);
    assert_eq!(
        data,
        vec![
            42,
            2,
            0x207469206c6c6957,
            0x3f6e696172,
            100,
            200,
            300,
            5_134,
            2_578,
            10_000,
            14_850,
            15_000,
            0,
            0,
            150
        ]
    );
}

#[test]
fn stored_outcome_tags() {
    let mut m = sample_market();
    m.resolve(false).unwrap();
    let mut data: Vec<u64> = Vec::new();
    m.to_data(&mut data);
    assert_eq!(data[11], 1);
    assert_eq!(data[12], 1);

    let mut m = sample_market();
    m.resolve(true).unwrap();
    let mut data: Vec<u64> = Vec::new();
    m.to_data(&mut data);
    assert_eq!(data[11], 1);
    assert_eq!(data[12], 2);
}

#[test]
fn storage_round_trip() {
    let mut states: Vec<MarketData> = Vec::new();
    states.push(MarketData::new_with_liquidity(0, 1, 1, 1_000, 1_000, 1).unwrap());
    states.push(sample_market());
    let mut sold = sample_market();
    sold.sell_shares(1, 1_000).unwrap();
    sold.withdraw_fees(7).unwrap();
    states.push(sold);
    let mut yes = sample_market();
    yes.resolve(true).unwrap();
    states.push(yes);
    let mut no = sample_market();
    no.resolve(false).unwrap();
    states.push(no);
    let mut full = MarketData::new_with_title_u64_and_liquidity(
        vec![1, 2, 3, 4, 5, 6, 7, u64::MAX],
        0,
        u64::MAX,
        u64::MAX,
        1_000_000_000_000,
        1_000,
        u64::MAX,
    )
    .unwrap();
    full.pool_balance = u64::MAX;
    full.total_volume = u64::MAX;
    full.total_fees_collected = u64::MAX;
    states.push(full);

    for m in states {
        let mut data: Vec<u64> = Vec::new();
        m.to_data(&mut data);
        assert_eq!(data.len(), m.title.len() + 12);
        let (back, used) = MarketData::from_data(&data).unwrap();
        assert_eq!(back, m);
        assert_eq!(used, data.len());

        data.push(99);
        data.push(98);
        let (again, used_again) = MarketData::from_data(&data).unwrap();
        assert_eq!(again, m);
        assert_eq!(used_again, data.len() - 2);
    }
}

#[test]
fn reading_a_record_that_ends_early() {
    let m = sample_market();
    let mut data: Vec<u64> = Vec::new();
    m.to_data(&mut data);
    for cut in 0..data.len() {
        assert!(MarketData::from_data(&data[..cut]).is_none());
    }
    assert!(MarketData::from_data(&[]).is_none());
    assert!(MarketData::from_data(&[u64::MAX, 0, 0, 0, 0, 0, 0, 0, 0, 0, 0, 0]).is_none());
    assert!(MarketData::from_data(&[1, 0, 0, 0, 0, 0, 0, 0, 0, 0, 0, 0]).is_none());
}

#[test]
fn reading_takes_words_as_they_are() {
    let words: [u64; 13] = [1, 77, 5, 4, 3, 0, 0, 0, 9, 8, 7, 6, 5];
    let (m, used) = MarketData::from_data(&words).unwrap();
    assert_eq!(used, 13);
    assert_eq!(m.title, vec![77]);
    assert_eq!((m.start_time, m.end_time, m.resolution_time), (5, 4, 3));
    assert_eq!((m.total_yes_shares, m.total_no_shares, m.b), (0, 0, 0));
    assert_eq!((m.pool_balance, m.total_volume, m.total_fees_collected), (9, 8, 5));
    assert!(m.resolved);
    assert_eq!(m.outcome, Some(true));

    let words: [u64; 12] = [0, 1, 2, 3, 4, 5, 6, 7, 8, 0, 1, 9];
    let (m, used) = MarketData::from_data(&words).unwrap();
    assert_eq!(used, 12);
    assert!(m.title.is_empty());
    assert!(!m.resolved);
    assert_eq!(m.outcome, Some(false));
    let words: [u64; 12] = [0, 1, 2, 3, 4, 5, 6, 7, 8, 0, 0, 9];
    assert_eq!(MarketData::from_data(&words).unwrap().0.outcome, None);
}

#[test]
fn event_tags() {
    assert_eq!(EVENT_PLAYER_UPDATE, 1);
    assert_eq!(EVENT_MARKET_UPDATE, 2);
    assert_eq!(EVENT_BET_UPDATE, 3);
}

#[test]
fn market_event_reports_the_supplies() {
    let m = sample_market();
    let event = MarketEvent::from(&m);
    let mut payload: Vec<u64> = vec![5];
    event.to_data(&mut payload);
    assert_eq!(payload, vec![5, 5_134, 2_578]);
    let back = MarketEvent::from_data(&payload[1..]).unwrap();
    let mut again: Vec<u64> = Vec::new();
    back.to_data(&mut again);
    assert_eq!(again, vec![5_134, 2_578]);
    assert!(MarketEvent::from_data(&payload[2..]).is_none());
    assert!(MarketEvent::from_data(&[]).is_none());
}

#[test]
fn events_are_logged_with_a_header_and_drained() {
    let mut log: Vec<u64> = Vec::new();
    let m = sample_market();
    let mut payload: Vec<u64> = Vec::new();
    MarketEvent::from(&m).to_data(&mut payload);
    insert_event(&mut log, EVENT_MARKET_UPDATE, &mut payload);
    assert!(payload.is_empty());
    assert_eq!(log, vec![(2u64 << 32) | 2, 5_134, 2_578]);
    assert_eq!(log[0], 8_589_934_594);

    let mut other: Vec<u64> = vec![11, 12, 13];
    insert_event(&mut log, EVENT_BET_UPDATE, &mut other);
    let mut none: Vec<u64> = Vec::new();
    insert_event(&mut log, EVENT_PLAYER_UPDATE, &mut none);
    assert_eq!(
        log,
        vec![(2u64 << 32) | 2, 5_134, 2_578, (3u64 << 32) | 3, 11, 12, 13, 1u64 << 32]
    );

    let drained = clear_events(&mut log, vec![1, 2]);
    assert!(log.is_empty());
    assert_eq!(
        drained,
        vec![1, 2, (2u64 << 32) | 2, 5_134, 2_578, (3u64 << 32) | 3, 11, 12, 13, 1u64 << 32]
    );
    assert_eq!(clear_events(&mut log, vec![7]), vec![7]);
}

#[test]
fn event_header_of_wide_values() {
    let mut log: Vec<u64> = Vec::new();
    let mut payload: Vec<u64> = vec![0; 3];
    insert_event(&mut log, u64::MAX, &mut payload);
    assert_eq!(log[0], 0xffff_ffff_0000_0003);
    assert_eq!(log.len(), 4);
}
