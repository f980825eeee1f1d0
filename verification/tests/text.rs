use omnipaxos_kv::text::{split_list, split_list_nonempty, trimmed};

#[test]
fn server_lists_are_split_and_trimmed() {
    assert_eq!(
        split_list("http://localhost:8081,http://localhost:8082,http://localhost:8083"),
        vec!["http://localhost:8081", "http://localhost:8082", "http://localhost:8083"]
    );
    assert_eq!(split_list(" a , b\t,c "), vec!["a", "b", "c"]);
    assert_eq!(split_list(""), vec![""]);
    assert_eq!(split_list("a,,b,"), vec!["a", "", "b", ""]);
}

#[test]
fn container_lists_drop_empty_items() {
    assert_eq!(split_list_nonempty("s1,s2,s3"), vec!["s1", "s2", "s3"]);
    assert_eq!(split_list_nonempty(" s1 , ,s2,"), vec!["s1", "s2"]);
    assert!(split_list_nonempty("").is_empty());
}

#[test]
fn trimming_matches_std() {
    for s in ["  x  ", "\u{3000}y\u{85}", "z", "", "   ", "a b", "\u{200b}q"] {
        assert_eq!(trimmed(s), s.trim());
    }
}
