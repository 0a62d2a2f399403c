use wav_recorder::filename::determine_filename;

fn strings(names: &[&str]) -> Vec<String> {
    names.iter().map(|n| n.to_string()).collect()
}

#[test]
fn empty_directory_allocates_take_one() {
    let entries: Vec<String> = Vec::new();
    assert_eq!(determine_filename(&entries), "recording-1.wav");
}

#[test]
fn next_after_highest_number_in_any_order() {
    let entries = strings(&["recording-3.wav", "recording-7.wav", "recording-2.wav"]);
    assert_eq!(determine_filename(&entries), "recording-8.wav");
}

#[test]
fn non_matching_names_never_count() {
    let entries = strings(&[
        "recording-abc.wav",
        "notes.txt",
        "recording-5.wav",
        "recording-.wav",
        "recording-9",
    ]);
    assert_eq!(determine_filename(&entries), "recording-6.wav");
}

#[test]
fn only_non_matching_names_allocates_take_one() {
    let entries = strings(&["notes.txt", "recording-abc.wav", "song.mp3"]);
    assert_eq!(determine_filename(&entries), "recording-1.wav");
}

#[test]
fn existing_take_one_allocates_take_two() {
    let entries = strings(&["recording-1.wav", "notes.txt"]);
    assert_eq!(determine_filename(&entries), "recording-2.wav");
}

#[test]
fn leading_zeros_read_numerically() {
    let entries = strings(&["recording-007.wav"]);
    assert_eq!(determine_filename(&entries), "recording-8.wav");
}

#[test]
fn large_numbers_allocate_successor() {
    let entries = strings(&["recording-41.wav", "recording-100.wav", "recording-99.wav"]);
    assert_eq!(determine_filename(&entries), "recording-101.wav");
}
