use c1_bridge::status_monitor::{compute_status, StatusSnapshot};

#[test]
fn empty_input_produces_all_false() {
    let snap = compute_status(&[]);
    assert_eq!(
        snap,
        StatusSnapshot {
            mixing_station: false,
            console1_osd: false,
        }
    );
}

fn names(values: &[&str]) -> Vec<String> {
    values.iter().map(|s| s.to_string()).collect()
}

#[test]
fn process_command_lines_match_by_substring() {
    let processes = names(&[
        "/Applications/Mixing Station.app/Contents/MacOS/mixing-station",
        "/Applications/Softube On-Screen Display.app/Contents/MacOS/Console1OSD_APP_Protect",
    ]);
    let snap = compute_status(&processes);
    assert!(snap.mixing_station);
    assert!(snap.console1_osd);
}

#[test]
fn status_monitor_matching_is_case_sensitive() {
    let processes = names(&["/Applications/Mixing Station.app/Contents/MacOS/MIXING-STATION"]);
    assert!(!compute_status(&processes).mixing_station);
}

#[test]
fn windows_mixing_station_process_is_detected() {
    let processes = names(&[r"C:\Users\danielpitra\AppData\Local\mixing-station-pc\mixing-station-pc.exe"]);
    assert!(compute_status(&processes).mixing_station);
}

#[test]
fn windows_console1_osd_process_is_detected() {
    let processes = names(&[r"C:\Program Files\Softube\Plug-Ins 64-bit\Softube On-Screen Display (x64).exe"]);
    assert!(compute_status(&processes).console1_osd);
}
