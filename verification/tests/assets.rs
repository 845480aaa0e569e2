use binary_options_tools::expertoptions::types::{Asset, Assets};

fn asset(id: u32, symbol: Option<&str>, name: &str) -> Asset {
    Asset { id, symbol: symbol.map(|s| s.to_string()), name: name.to_string(), is_active: true }
}

#[test]
fn assets_keep_tradable_ones_by_symbol() {
    let assets = Assets::new(vec![
        asset(1, Some("EURUSD"), "Euro"),
        asset(0, Some("ZERO"), "Zero"),
        asset(20000, Some("UNSUPPORTED"), "Unsupported"),
        asset(2, None, "Gold"),
        asset(3, Some("EURUSD"), "Euro again"),
    ]);
    assert_eq!(assets.id("EURUSD"), Some(3));
    assert_eq!(assets.id("Gold"), Some(2));
    assert_eq!(assets.id("ZERO"), None);
    assert_eq!(assets.id("UNSUPPORTED"), None);
    assert_eq!(assets.id("Euro"), None);
}

#[test]
fn asset_symbol_falls_back_to_name() {
    assert_eq!(asset(1, Some("BTC"), "Bitcoin").get_symbol(), "BTC");
    assert_eq!(asset(1, None, "Bitcoin").get_symbol(), "Bitcoin");
}
