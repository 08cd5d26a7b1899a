use c1_bridge::events::BridgeEvent;
use c1_bridge::lifecycle::Lifecycle;

#[test]
fn bridge_event_variants_are_constructible() {
    let _ = BridgeEvent::Log("hello".to_string());
    let _ = BridgeEvent::LifecycleChanged(Lifecycle::Running);
    let _ = BridgeEvent::ConfigApplied {
        url_changed: true,
        anything_changed: true,
    };
    let _ = BridgeEvent::Crashed("panic".to_string());
}
