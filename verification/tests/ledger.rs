use lib::events::{
    DispatchEventResult, EventLedger, KeySource, Modifiers, NativeEventIdentity, NativeEventToken,
    SemanticKey,
};

fn mac_token(timestamp_bits: u64) -> NativeEventToken {
    NativeEventToken {
        generation: 7,
        identity: NativeEventIdentity::Mac {
            timestamp_bits,
            key_code: 12,
            event_type: 10,
            window: 3,
        },
    }
}

#[test]
fn event_ledger_deduplicates_only_verified_cross_source_events() {
    let token_one = mac_token(1);
    let token_two = mac_token(2);
    let stroke = SemanticKey {
        key: "x".to_string(),
        modifiers: Modifiers::default(),
        down: true,
    };
    let result = DispatchEventResult {
        propagate: false,
        default_prevented: true,
    };
    let mut ledger = EventLedger::new();
    ledger.record_key(token_one, stroke.clone(), KeySource::Native, result);
    assert_eq!(
        ledger.key_duplicate(token_one, &stroke, KeySource::Vst3Callback),
        Some(result)
    );
    assert_eq!(
        ledger.key_duplicate(token_one, &stroke, KeySource::Native),
        None
    );
    assert_eq!(
        ledger.key_duplicate(token_two, &stroke, KeySource::Vst3Callback),
        None
    );

    ledger.record_text(token_one, "🙂".to_string(), KeySource::Native, true);
    assert_eq!(
        ledger.text_duplicate(token_one, "🙂", KeySource::Vst3Callback),
        Some(true)
    );
    assert_eq!(
        ledger.text_duplicate(token_two, "🙂", KeySource::Vst3Callback),
        None
    );

    ledger.record_key(token_two, stroke.clone(), KeySource::Native, result);
    assert!(ledger
        .key_duplicate(token_two, &stroke, KeySource::Vst3Callback)
        .is_some());
    ledger.clear();
    assert_eq!(
        ledger.key_duplicate(token_one, &stroke, KeySource::Vst3Callback),
        None
    );
}

#[test]
fn ledger_keeps_the_first_record_of_a_keystroke() {
    let token = mac_token(5);
    let stroke = SemanticKey {
        key: "y".to_string(),
        modifiers: Modifiers::default(),
        down: false,
    };
    let first = DispatchEventResult {
        propagate: true,
        default_prevented: false,
    };
    let second = DispatchEventResult {
        propagate: false,
        default_prevented: true,
    };
    let mut ledger = EventLedger::new();
    ledger.record_key(token, stroke.clone(), KeySource::Vst3Callback, first);
    ledger.record_key(token, stroke.clone(), KeySource::Vst3Callback, second);
    assert_eq!(ledger.len(), 1);
    assert_eq!(
        ledger.key_duplicate(token, &stroke, KeySource::Native),
        Some(first)
    );
}

#[test]
fn ledger_stays_bounded() {
    let mut ledger = EventLedger::new();
    for index in 0..300u64 {
        ledger.record_text(mac_token(index), "1".to_string(), KeySource::Native, false);
        assert!(ledger.len() <= 128);
    }
    assert_eq!(ledger.len(), 128);
    assert_eq!(
        ledger.text_duplicate(mac_token(0), "1", KeySource::Vst3Callback),
        None
    );
    assert_eq!(
        ledger.text_duplicate(mac_token(299), "1", KeySource::Vst3Callback),
        Some(false)
    );
}
