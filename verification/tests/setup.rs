//! The set-up of the L1 client and of the provider of missing data.

use sequencer::data_source::provider;
use sequencer::l1_client::{
    after_start, invalid_block_tag_message, l1_client_setup, parse_switch, L1ClientSetup,
    StartStep,
};

#[test]
fn switches() {
    for s in ["y", "yes", "t", "true", "on", "1"] {
        assert_eq!(parse_switch(s), Some(true));
    }
    for s in ["n", "no", "f", "false", "off", "0"] {
        assert_eq!(parse_switch(s), Some(false));
    }
    for s in ["", "Y", "yes ", "2", "maybe"] {
        assert_eq!(parse_switch(s), None);
    }
}

#[test]
fn client_needs_a_provider_outside_tests() {
    assert_eq!(l1_client_setup(None, None, true), L1ClientSetup::Mock);
    assert_eq!(l1_client_setup(None, Some("bad".to_string()), true), L1ClientSetup::Mock);
    assert_eq!(l1_client_setup(None, None, false), L1ClientSetup::MissingProvider);
}

#[test]
fn client_settings() {
    let url = || Some("ws://l1".to_string());
    for testing in [false, true] {
        for (tag, expected) in [(None, false), (Some("yes"), true), (Some("off"), false)] {
            assert_eq!(
                l1_client_setup(url(), tag.map(str::to_string), testing),
                L1ClientSetup::Start { url: url().unwrap(), use_latest_block_tag: expected }
            );
        }
        assert_eq!(
            l1_client_setup(url(), Some("maybe".to_string()), testing),
            L1ClientSetup::InvalidBlockTag { value: "maybe".to_string() }
        );
    }
    assert_eq!(
        invalid_block_tag_message("maybe"),
        "invalid ESPRESSO_SEQUENCER_L1_USE_LATEST_BLOCK_TAG value: maybe"
    );
}

#[test]
fn client_is_started_until_it_is_there() {
    assert_eq!(after_start::<u8, &str>(Ok(7)), StartStep::Started(7));
    assert_eq!(after_start::<u8, &str>(Err("down")), StartStep::RetryAfter { seconds: 1 });
}

#[test]
fn peers_are_added_in_order() {
    let peers = vec!["a", "b", "c"];
    let all = provider(&peers, String::new(), |p, u| format!("{p}/{u}"));
    assert_eq!(all, "/a/b/c");
    let none: Vec<&str> = vec![];
    assert_eq!(provider(&none, "empty".to_string(), |p, u| format!("{p}/{u}")), "empty");
}
