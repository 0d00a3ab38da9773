use lib::events::{DispatchEventResult, KeySource, Modifiers, NativeEventIdentity, SemanticKey};
use lib::key_routing::{vst3_key_action, KeyCorrelation, Vst3KeyAction};

fn identity(timestamp_bits: u64, event_type: u16) -> NativeEventIdentity {
    NativeEventIdentity::Mac {
        timestamp_bits,
        key_code: 12,
        event_type,
        window: 3,
    }
}

fn stroke() -> SemanticKey {
    SemanticKey {
        key: "x".to_string(),
        modifiers: Modifiers::default(),
        down: true,
    }
}

const PROPAGATED: DispatchEventResult = DispatchEventResult {
    propagate: true,
    default_prevented: false,
};

const CONSUMED: DispatchEventResult = DispatchEventResult {
    propagate: false,
    default_prevented: true,
};

#[test]
fn uncorrelatable_callback_events_are_delivered_independently() {
    let mut correlation = KeyCorrelation::new();
    let mut dispatched = 0;
    for source in [KeySource::Native, KeySource::Vst3Callback] {
        if correlation.key_duplicate(None, &stroke(), source).is_none() {
            dispatched += 1;
            correlation.record_key(None, stroke(), source, CONSUMED);
        }
    }
    assert_eq!(dispatched, 2);
}

#[test]
fn correlated_events_are_dispatched_once() {
    let mut correlation = KeyCorrelation::new();
    let token = correlation.token_for(identity(1, 10));
    assert_eq!(correlation.key_duplicate(Some(token), &stroke(), KeySource::Native), None);
    correlation.record_key(Some(token), stroke(), KeySource::Native, CONSUMED);
    assert_eq!(
        correlation.key_duplicate(Some(token), &stroke(), KeySource::Vst3Callback),
        Some(CONSUMED)
    );
    correlation.record_text(Some(token), "x".to_string(), KeySource::Vst3Callback, true);
    assert_eq!(
        correlation.text_duplicate(Some(token), "x", KeySource::Native),
        Some(true)
    );
}

#[test]
fn a_new_focus_generation_forgets_earlier_events() {
    let mut correlation = KeyCorrelation::new();
    let token = correlation.token_for(identity(1, 10));
    correlation.record_key(Some(token), stroke(), KeySource::Native, CONSUMED);
    correlation.note_native_key(Some(token), true);
    correlation.invalidate_generation();
    assert_eq!(correlation.focus_generation(), 1);
    assert_eq!(correlation.last_native_key_token(), None);
    assert_eq!(
        correlation.key_duplicate(Some(token), &stroke(), KeySource::Vst3Callback),
        None
    );
    correlation.record_key(Some(token), stroke(), KeySource::Native, CONSUMED);
    assert_eq!(
        correlation.key_duplicate(Some(token), &stroke(), KeySource::Vst3Callback),
        None
    );
}

#[test]
fn native_keyup_clears_text_correlation_for_distinct_up_token() {
    let mut correlation = KeyCorrelation::new();
    let down = correlation.token_for(identity(11, 10));
    let up = correlation.token_for(identity(12, 11));
    correlation.note_native_key(Some(down), true);
    assert_eq!(correlation.last_native_key_token(), Some(down));
    correlation.note_native_key(Some(up), false);
    assert_eq!(correlation.last_native_key_token(), None);
}

#[test]
fn vst3_key_actions_follow_dispatch_results() {
    let plain = Modifiers::default();
    let control = Modifiers {
        control: true,
        ..Modifiers::default()
    };
    assert_eq!(
        vst3_key_action(false, CONSUMED, plain, 'a' as u16, 0),
        Vst3KeyAction::Handled(true)
    );
    assert_eq!(
        vst3_key_action(false, PROPAGATED, plain, 'a' as u16, 0),
        Vst3KeyAction::Handled(false)
    );
    assert_eq!(
        vst3_key_action(true, CONSUMED, plain, 'a' as u16, 0),
        Vst3KeyAction::Handled(true)
    );
    assert_eq!(
        vst3_key_action(true, PROPAGATED, plain, 'a' as u16, 0),
        Vst3KeyAction::DispatchText("a".to_string())
    );
    assert_eq!(
        vst3_key_action(true, PROPAGATED, control, 'a' as u16, 0),
        Vst3KeyAction::Handled(false)
    );
    assert_eq!(
        vst3_key_action(true, PROPAGATED, plain, 0, 11),
        Vst3KeyAction::Handled(false)
    );
}

#[test]
fn windows_character_messages_inherit_the_matching_key_token() {
    let mut correlation = KeyCorrelation::new();
    let token = correlation.token_for(NativeEventIdentity::Windows {
        message_time: 12,
        window: 4,
        virtual_key: 65,
        scan_code: 30,
        kind: 1,
    });
    correlation.note_native_key(Some(token), true);
    assert_eq!(correlation.windows_text_token(4, 12), Some(token));
    assert_eq!(correlation.windows_text_token(4, 13), None);
    assert_eq!(correlation.windows_text_token(5, 12), None);
    correlation.invalidate_generation();
    correlation.note_native_key(Some(token), true);
    assert_eq!(correlation.windows_text_token(4, 12), None);
}
