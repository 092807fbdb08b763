use live_transcribe::recording::{recording_stem, selected_case};

#[test]
fn recording_stems() {
    assert_eq!(recording_stem("Multiple pauses"), "multiple-pauses");
    assert_eq!(recording_stem("Hello, World"), "hello-world");
    assert_eq!(recording_stem("Café Test"), "café-test");
    assert_eq!(recording_stem(""), "");
}

#[test]
fn case_selection_falls_back_to_first() {
    assert_eq!(selected_case(1, 7), 0);
    assert_eq!(selected_case(7, 7), 6);
    assert_eq!(selected_case(0, 7), 0);
    assert_eq!(selected_case(8, 7), 0);
}
