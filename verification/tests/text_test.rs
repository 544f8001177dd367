use brinsfield_silence_simulation::text::split_list;

#[test]
fn split_list_drops_empty_items() {
    assert_eq!(split_list("0.05,0.10,0.20"), vec!["0.05", "0.10", "0.20"]);
    assert_eq!(split_list(" a,,b  c, "), vec!["a", "b", "c"]);
    assert_eq!(split_list(""), Vec::<String>::new());
    assert_eq!(split_list(", ,"), Vec::<String>::new());
    assert_eq!(split_list("x\ty,z"), vec!["x\ty", "z"]);
    assert_eq!(split_list("αβ,γ"), vec!["αβ", "γ"]);
}

#[test]
fn split_list_matches_std_split() {
    for s in ["1,1,1,1,1,1", "0.3,0.3,0.4", " 1 2,3 ", ",,", "a"] {
        let expected: Vec<String> = s
            .split([',', ' '])
            .filter(|t| !t.is_empty())
            .map(|t| t.to_string())
            .collect();
        assert_eq!(split_list(s), expected, "{s}");
    }
}
