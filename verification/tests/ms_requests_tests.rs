use c1_bridge::channel_data_message::MsFormat;
use c1_bridge::json::JsonValue;
use c1_bridge::ms_requests::{
    dsp_refresh_channels, dsp_refresh_requests, ms_request_message, required_channel_subscriptions, sends_mode_requests,
    MsRequest, MsRequestKind,
};

fn str_member<'a>(v: &'a JsonValue, key: &str) -> Option<&'a str> {
    match v {
        JsonValue::Object(members) => members.iter().find(|(k, _)| k == key).and_then(|(_, v)| match v {
            JsonValue::Str(s) => Some(s.as_str()),
            _ => None,
        }),
        _ => None,
    }
}
fn member<'a>(v: &'a JsonValue, key: &str) -> Option<&'a JsonValue> {
    match v {
        JsonValue::Object(members) => members.iter().find(|(k, _)| k == key).map(|(_, v)| v),
        _ => None,
    }
}
fn has(reqs: &[MsRequest], kind: MsRequestKind, path: &str, format: MsFormat) -> bool {
    reqs.iter().any(|r| r.kind == kind && r.path == path && r.format == format)
}

#[test]
fn required_subscriptions_start_with_the_mixer_parameters() {
    let reqs = required_channel_subscriptions(&[0, 1, 2, 3, 4, 5]);
    assert_eq!(reqs[0].path, "ch.*.cfg.name");
    assert_eq!(reqs[2].path, "ch.*.mix.lvl");
    assert_eq!(reqs[3].path, "ch.*.mix.pan");
    assert_eq!(reqs[3].format, MsFormat::Norm);
    assert!(reqs.iter().all(|r| r.kind == MsRequestKind::Subscribe));
    assert!(has(&reqs, MsRequestKind::Subscribe, "ch.*.peq.bands.3.type", MsFormat::Val));
    assert!(has(&reqs, MsRequestKind::Subscribe, "ch.*.dyn.mix", MsFormat::Norm));
}

#[test]
fn required_subscriptions_follow_the_send_mapping() {
    let reqs = required_channel_subscriptions(&[3, 1, 2, 0, 4, 5]);
    assert!(has(&reqs, MsRequestKind::Subscribe, "ch.*.mix.sends.3.lvl", MsFormat::Val));
}

#[test]
fn dsp_refresh_reads_every_dsp_parameter_of_each_channel() {
    let reqs = dsp_refresh_requests(&[2]);
    assert!(reqs.iter().all(|r| r.kind == MsRequestKind::Get));
    assert!(has(&reqs, MsRequestKind::Get, "ch.2.preamp.filter.0.on", MsFormat::Val));
    assert!(has(&reqs, MsRequestKind::Get, "ch.2.dyn.thr", MsFormat::Norm));
    assert_eq!(reqs.len(), 48);
}

#[test]
fn dsp_refresh_channels_are_inputs_buses_and_main() {
    assert_eq!(dsp_refresh_channels(3, 48, 2, &[70, 71]), vec![0, 1, 2, 48, 49, 70, 71]);
}

#[test]
fn entering_sends_mode_subscribes_and_reads_the_send() {
    let reqs = sends_mode_requests(None, Some(2), 2);
    assert!(has(&reqs, MsRequestKind::Subscribe, "ch.*.mix.sends.2.on", MsFormat::Val));
    assert!(has(&reqs, MsRequestKind::Subscribe, "ch.*.mix.sends.2.pan", MsFormat::Norm));
    assert!(has(&reqs, MsRequestKind::Get, "ch.1.mix.sends.2.on", MsFormat::Val));
    assert!(!reqs.iter().any(|r| r.kind == MsRequestKind::Unsubscribe));
}

#[test]
fn leaving_sends_mode_unsubscribes_and_rereads_mute_and_pan() {
    let reqs = sends_mode_requests(Some(2), None, 2);
    assert!(has(&reqs, MsRequestKind::Unsubscribe, "ch.*.mix.sends.2.on", MsFormat::Val));
    assert!(has(&reqs, MsRequestKind::Get, "ch.0.mix.on", MsFormat::Val));
    assert!(has(&reqs, MsRequestKind::Get, "ch.1.mix.pan", MsFormat::Norm));
}

#[test]
fn subscribe_request_message_posts_path_and_format() {
    let r = MsRequest { kind: MsRequestKind::Subscribe, path: "ch.*.mix.lvl".to_string(), format: MsFormat::Val };
    let m = ms_request_message(&r);
    assert_eq!(str_member(&m, "path"), Some("/console/data/subscribe"));
    assert_eq!(str_member(&m, "method"), Some("POST"));
    let body = member(&m, "body").unwrap();
    assert_eq!(str_member(body, "path"), Some("ch.*.mix.lvl"));
    assert_eq!(str_member(body, "format"), Some("val"));
}

#[test]
fn get_request_message_names_path_and_format_in_the_url() {
    let r = MsRequest { kind: MsRequestKind::Get, path: "ch.4.mix.pan".to_string(), format: MsFormat::Norm };
    let m = ms_request_message(&r);
    assert_eq!(str_member(&m, "path"), Some("/console/data/get/ch.4.mix.pan/norm"));
    assert_eq!(str_member(&m, "method"), Some("GET"));
}

#[test]
fn unsubscribe_request_message_uses_the_unsubscribe_endpoint() {
    let r = MsRequest { kind: MsRequestKind::Unsubscribe, path: "ch.*.mix.sends.1.on".to_string(), format: MsFormat::Val };
    let m = ms_request_message(&r);
    assert_eq!(str_member(&m, "path"), Some("/console/data/unsubscribe"));
}
