use rshell::completion::{completion_choice, filter_prefix, longest_common_prefix};

#[test]
fn common_prefix_of_candidates() {
    let v = vec!["foobar".to_string(), "foobaz".to_string(), "foob".to_string()];
    assert_eq!(longest_common_prefix(&v), "foob".to_string());
}

#[test]
fn common_prefix_edge_cases() {
    assert_eq!(longest_common_prefix(&Vec::new()), "".to_string());
    assert_eq!(longest_common_prefix(&vec!["only".to_string()]), "only".to_string());
    let v = vec!["abc".to_string(), "xyz".to_string()];
    assert_eq!(longest_common_prefix(&v), "".to_string());
}

#[test]
fn filter_keeps_matching_names_in_order() {
    let names = vec![
        "echo".to_string(),
        "exit".to_string(),
        "cat".to_string(),
        "ec2".to_string(),
    ];
    assert_eq!(filter_prefix("ec", &names), vec!["echo".to_string(), "ec2".to_string()]);
    assert_eq!(filter_prefix("", &names), names);
    assert_eq!(filter_prefix("zzz", &names), Vec::<String>::new());
}

#[test]
fn single_match_completes_with_space() {
    let ms = vec!["ls".to_string()];
    assert_eq!(completion_choice("l", &ms), vec!["ls ".to_string()]);
}

#[test]
fn many_matches_extend_to_common_prefix() {
    let ms = vec!["foobar".to_string(), "foobaz".to_string()];
    assert_eq!(completion_choice("foo", &ms), vec!["fooba".to_string()]);
}

#[test]
fn many_matches_without_extension_are_listed() {
    let ms = vec!["foobar".to_string(), "foobaz".to_string()];
    assert_eq!(completion_choice("fooba", &ms), ms);
}

#[test]
fn no_matches_offer_nothing() {
    assert_eq!(completion_choice("x", &Vec::new()), Vec::<String>::new());
}
