use defrag_simulator_rs::dos_files::DosFileProvider;

#[test]
fn provider_hands_out_every_name_once() {
    let mut p = DosFileProvider::new();
    let total = p.remaining_count();
    assert_eq!(total, 164);
    let mut names = Vec::new();
    while let Some(name) = p.get_random_filename() {
        assert!(!name.is_empty());
        names.push(name);
    }
    assert_eq!(names.len(), total);
    assert_eq!(p.remaining_count(), 0);
    assert_eq!(p.get_random_filename(), None);
    names.sort();
    assert!(names.contains(&"IO.SYS".to_string()));
    assert!(names.contains(&"DOOM\\DOOM.WAD".to_string()));
}

#[test]
fn provider_count_decreases_by_one() {
    let mut p = DosFileProvider::new();
    let before = p.remaining_count();
    let first = p.get_random_filename();
    assert!(first.is_some());
    assert_eq!(p.remaining_count(), before - 1);
}
