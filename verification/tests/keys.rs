use commit_picker::keys::{edges, holds, Key};

#[test]
fn edges_are_current_without_previous() {
    let previous = vec![Key::Up, Key::Other(30)];
    let current = vec![Key::Up, Key::Down, Key::Other(31)];
    assert_eq!(edges(&previous, &current), vec![Key::Down, Key::Other(31)]);
}

#[test]
fn edges_of_first_sample_are_all_its_keys() {
    let current = vec![Key::Enter, Key::Up];
    assert_eq!(edges(&Vec::new(), &current), vec![Key::Enter, Key::Up]);
}

#[test]
fn released_keys_are_no_edges() {
    let previous = vec![Key::Down, Key::Enter];
    assert_eq!(edges(&previous, &Vec::new()), Vec::<Key>::new());
}

#[test]
fn held_key_is_an_edge_once() {
    let samples = vec![vec![Key::Down], vec![Key::Down], vec![Key::Down], vec![Key::Down]];
    let mut previous: Vec<Key> = Vec::new();
    let mut count = 0;
    for sample in samples {
        if holds(&edges(&previous, &sample), Key::Down) {
            count += 1;
        }
        previous = sample;
    }
    assert_eq!(count, 1);
}

#[test]
fn key_pressed_again_after_release_is_an_edge_again() {
    let samples = vec![vec![Key::Down], vec![], vec![Key::Down]];
    let mut previous: Vec<Key> = Vec::new();
    let mut count = 0;
    for sample in samples {
        if holds(&edges(&previous, &sample), Key::Down) {
            count += 1;
        }
        previous = sample;
    }
    assert_eq!(count, 2);
}

#[test]
fn other_keys_are_told_apart_by_code() {
    let previous = vec![Key::Other(1)];
    let current = vec![Key::Other(1), Key::Other(2)];
    assert_eq!(edges(&previous, &current), vec![Key::Other(2)]);
}

#[test]
fn holds_finds_a_key() {
    let keys = vec![Key::Other(7), Key::Enter];
    assert!(holds(&keys, Key::Enter));
    assert!(holds(&keys, Key::Other(7)));
    assert!(!holds(&keys, Key::Up));
    assert!(!holds(&keys, Key::Other(8)));
    assert!(!holds(&Vec::new(), Key::Down));
}

#[test]
fn a_key_listed_twice_is_an_edge_twice() {
    let current = vec![Key::Down, Key::Down];
    assert_eq!(edges(&Vec::new(), &current), vec![Key::Down, Key::Down]);
}
