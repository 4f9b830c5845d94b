use soksak_kit_sidecar_terminal::mirror::TerminalModes;
use soksak_kit_sidecar_terminal::modes::{apply_bytes_of, report_of};

fn modes_with_paste() -> TerminalModes {
    TerminalModes { bracketed_paste: true, ..TerminalModes::default() }
}

#[test]
fn a_report_carries_the_modes_and_the_screen() {
    let report = report_of(modes_with_paste(), true);
    assert!(report.modes.bracketed_paste);
    assert!(!report.modes.insert);
    assert!(report.alt);
    let mut reporting = modes_with_paste();
    reporting.mouse_x10 = true;
    reporting.mouse_highlight = true;
    assert_eq!(report_of(reporting, true), report, "what the report does not carry is left out");
}

#[test]
fn an_empty_store_applies_nothing() {
    assert_eq!(apply_bytes_of(&[], None), None);
    assert_eq!(apply_bytes_of(&[], Some(b"\x1b[?2004h".to_vec())), None);
}

#[test]
fn a_report_this_build_cannot_read_applies_nothing() {
    assert_eq!(apply_bytes_of(b"v2 1 0", None), None);
}

#[test]
fn a_readable_report_applies_what_it_reads_as() {
    let bytes = apply_bytes_of(b"v1", Some(b"\x1b[?2004h".to_vec()));
    assert_eq!(bytes, Some(b"\x1b[?2004h".to_vec()));
}
