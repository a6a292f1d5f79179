use ariax_engine::bittorrent::BitTorrentOptions;
use ariax_engine::control::HttpControlError;
use ariax_engine::native_error::NativeApiError;
use ariax_engine::pairs::TextPair;

fn unavailable(_values: &Vec<TextPair>) -> Option<HttpControlError> {
    Some(HttpControlError::Unsupported("BitTorrent feature unavailable"))
}

fn judged(values: &Vec<TextPair>) -> Option<HttpControlError> {
    for pair in values {
        let refused = match pair.name.as_str() {
            "bt-max-peers" => pair.value == "0",
            "seed-ratio" => pair.value == "NaN",
            "index-out" => pair.value.contains(".."),
            _ => pair.value == "required",
        };
        if refused {
            return Some(HttpControlError::InvalidParams("invalid BitTorrent option"));
        }
    }
    None
}

#[test]
fn bt_native_options_share_validation_and_explicit_feature_errors() {
    for (name, value) in [
        ("bt-max-peers", "0"),
        ("seed-ratio", "NaN"),
        ("index-out", "1=../outside"),
        ("bt-encryption", "required"),
    ] {
        let values = || vec![TextPair { name: name.to_owned(), value: value.to_owned() }];
        assert!(BitTorrentOptions::from_pairs(values(), judged).is_err());
        assert!(BitTorrentOptions::from_pairs(values(), unavailable).is_err());
    }
    assert!(BitTorrentOptions::default().peer_limit(32, judged).is_ok());
    assert!(matches!(
        BitTorrentOptions::default().peer_limit(32, unavailable),
        Err(NativeApiError::Control(HttpControlError::Unsupported(_)))
    ));
}

#[test]
fn a_setting_replaces_the_one_under_its_name() {
    let options = BitTorrentOptions::default().peer_limit(32, judged).expect("first");
    let options = options.peer_limit(16, judged).expect("second");
    assert_eq!(options.value().len(), 1);
    assert_eq!(options.value()[0].value, "16");
    assert!(BitTorrentOptions::default().peer_limit(0, judged).is_err());
}

#[test]
fn settings_named_twice_are_refused_before_they_are_judged() {
    let pair = |value: &str| TextPair { name: "bt-max-peers".to_owned(), value: value.to_owned() };
    assert!(matches!(
        BitTorrentOptions::from_pairs(vec![pair("1"), pair("2")], judged),
        Err(NativeApiError::InvalidConfiguration("duplicate, oversized or unsupported BitTorrent option"))
    ));
}
