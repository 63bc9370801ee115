use prediction_market::error::ERROR_INVALID_MARKET_TITLE;
use prediction_market::market::MarketData;
use prediction_market::title::title_bytes;

#[test]
fn text_packs_eight_bytes_to_a_word() {
    assert_eq!(MarketData::string_to_u64_vec(""), Vec::<u64>::new());
    assert_eq!(MarketData::string_to_u64_vec("hello"), vec![478_560_413_032]);
    assert_eq!(MarketData::string_to_u64_vec("12345678"), vec![0x3837363534333231]);
    assert_eq!(
        MarketData::string_to_u64_vec("Will it rain?"),
        vec![0x207469206c6c6957, 0x3f6e696172]
    );
    assert_eq!(MarketData::string_to_u64_vec("\u{e9}"), vec![43_459]);
    assert_eq!(MarketData::string_to_u64_vec("123456789").len(), 2);
}

#[test]
fn words_unpack_up_to_the_first_zero_byte() {
    assert_eq!(title_bytes(&[]), Vec::<u8>::new());
    assert_eq!(title_bytes(&[478_560_413_032]), b"hello".to_vec());
    assert_eq!(title_bytes(&[0x207469206c6c6957, 0x3f6e696172]), b"Will it rain?".to_vec());
    assert_eq!(title_bytes(&[0x41_00_42]), b"B".to_vec());
    assert_eq!(title_bytes(&[0, 0x43]), b"C".to_vec());
    assert_eq!(title_bytes(&[0x44, 0, 0x45]), b"DE".to_vec());
    assert_eq!(title_bytes(&[u64::MAX]), vec![0xff; 8]);
}

#[test]
fn text_survives_packing() {
    let texts = ["", "a", "hello", "12345678", "Will it rain tomorrow?", "caf\u{e9} \u{1f327}"];
    for text in texts {
        let words = MarketData::string_to_u64_vec(text);
        assert_eq!(words.len(), (text.len() + 7) / 8);
        assert_eq!(MarketData::u64_vec_to_string(&words), text);
    }
}

#[test]
fn bytes_that_are_not_text_are_replaced() {
    assert_eq!(MarketData::u64_vec_to_string(&[0xff]), "\u{fffd}");
    assert_eq!(MarketData::u64_vec_to_string(&[0x41_ff_42]), "B\u{fffd}A");
    assert_eq!(MarketData::u64_vec_to_string(&[0xc3]), "\u{fffd}");
    assert_eq!(MarketData::u64_vec_to_string(&[0xc3, 0xa9]), "\u{e9}");
}

#[test]
fn market_title_as_text() {
    let title = MarketData::string_to_u64_vec("Will it rain?");
    let m = MarketData::new_with_title_u64_and_liquidity(title, 0, 1, 1, 1_000, 1_000, 10_000)
        .unwrap();
    assert_eq!(m.get_title_string(), "Will it rain?");
    let plain = MarketData::new_with_liquidity(0, 1, 1, 1_000, 1_000, 10_000).unwrap();
    assert_eq!(plain.get_title_string(), "");
}

#[test]
fn longest_title() {
    let text = "x".repeat(64);
    let title = MarketData::string_to_u64_vec(&text);
    assert_eq!(title.len(), 8);
    let m = MarketData::new_with_title_u64_and_liquidity(title, 0, 1, 1, 1_000, 1_000, 10_000)
        .unwrap();
    assert_eq!(m.get_title_string(), text);

    let longer = MarketData::string_to_u64_vec(&"x".repeat(65));
    assert_eq!(longer.len(), 9);
    assert_eq!(
        MarketData::new_with_title_u64_and_liquidity(longer, 0, 1, 1, 1_000, 1_000, 10_000).err(),
        Some(ERROR_INVALID_MARKET_TITLE)
    );
}
