use c1_bridge::midi_io::{find_matching_port_index, DEFAULT_PREFERRED_PORT_NAMES};

#[test]
fn matches_exact_substring() {
    let names = vec!["Console 1 Fader Mk III DAW".to_string()];
    assert_eq!(find_matching_port_index(&names, &DEFAULT_PREFERRED_PORT_NAMES), Some(0));
}

#[test]
fn matches_when_preferred_name_is_a_substring_of_a_longer_port_name() {
    let names = vec![
        "IAC Driver Bus 1".to_string(),
        "Console 1 Fader Mk III DAW Port 1".to_string(),
    ];
    assert_eq!(find_matching_port_index(&names, &DEFAULT_PREFERRED_PORT_NAMES), Some(1));
}

#[test]
fn returns_first_match_when_multiple_ports_match() {
    let names = vec![
        "Console 1 Fader Mk III DAW A".to_string(),
        "Console 1 Fader Mk III DAW B".to_string(),
    ];
    assert_eq!(find_matching_port_index(&names, &DEFAULT_PREFERRED_PORT_NAMES), Some(0));
}

#[test]
fn no_match_returns_none() {
    let names = vec!["Some Other Device".to_string()];
    assert_eq!(find_matching_port_index(&names, &DEFAULT_PREFERRED_PORT_NAMES), None);
}

#[test]
fn midi_io_matching_is_case_sensitive() {
    let names = vec!["console 1 fader mk iii daw".to_string()];
    assert_eq!(find_matching_port_index(&names, &DEFAULT_PREFERRED_PORT_NAMES), None);
}

#[test]
fn empty_port_list_returns_none() {
    let names: Vec<String> = vec![];
    assert_eq!(find_matching_port_index(&names, &DEFAULT_PREFERRED_PORT_NAMES), None);
}
