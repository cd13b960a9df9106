use sensor_node::post_data::{split_pair, PostData, MAX_PARAM_NB};

#[test]
fn pairs_are_found_by_name() {
    let data = PostData::from_string("ssid=Home&pass=secret123".to_string());
    assert_eq!(data.read_value("ssid"), Some("Home".to_string()));
    assert_eq!(data.read_value("pass"), Some("secret123".to_string()));
    assert_eq!(data.read_value("other"), None);
    assert!(data.is_key_exists("ssid"));
    assert!(!data.is_key_exists("other"));
    assert!(!data.is_key_exists("SSID"));
}

#[test]
fn names_and_values_are_percent_decoded() {
    let data = PostData::from_string("na%6De=My%20Node%21&a+b=c+d&bad=%zz%4".to_string());
    assert_eq!(data.read_value("name"), Some("My Node!".to_string()));
    assert_eq!(data.read_value("a+b"), Some("c+d".to_string()));
    assert_eq!(data.read_value("bad"), Some("%zz%4".to_string()));
    let data = PostData::from_string("x=%C3%A9&y=%FF".to_string());
    assert_eq!(data.read_value("x"), Some("\u{e9}".to_string()));
    assert_eq!(data.read_value("y"), Some("\u{fffd}".to_string()));
}

#[test]
fn an_encoded_separator_does_not_cut() {
    let data = PostData::from_string("a=1%262&b=3%3D4".to_string());
    assert_eq!(data.read_value("a"), Some("1&2".to_string()));
    assert_eq!(data.read_value("b"), Some("3=4".to_string()));
}

#[test]
fn piece_without_equals_has_no_value() {
    let data = PostData::from_string("flag&x=1".to_string());
    assert_eq!(data.read_value("flag"), Some("NO_VALUE".to_string()));
    assert_eq!(data.read_value("x"), Some("1".to_string()));
}

#[test]
fn only_what_stands_before_the_second_equals_is_the_value() {
    let data = PostData::from_string("a=b=c&=v&k=".to_string());
    assert_eq!(data.read_value("a"), Some("b".to_string()));
    assert_eq!(data.read_value(""), Some("v".to_string()));
    assert_eq!(data.read_value("k"), Some("".to_string()));
}

#[test]
fn first_pair_with_the_name_counts() {
    let data = PostData::from_string("a=1&a=2".to_string());
    assert_eq!(data.read_value("a"), Some("1".to_string()));
}

#[test]
fn only_eight_pairs_count() {
    assert_eq!(MAX_PARAM_NB, 8);
    let data = PostData::from_string("a=1&b=2&c=3&d=4&e=5&f=6&g=7&h=8&i=9&j=10".to_string());
    assert_eq!(data.read_value("h"), Some("8".to_string()));
    assert_eq!(data.read_value("i"), None);
    assert!(!data.is_key_exists("j"));
    assert!(!data.is_key_exists(""));
}

#[test]
fn unfilled_pairs_have_an_empty_name() {
    let data = PostData::from_string("a=1".to_string());
    assert_eq!(data.read_value(""), Some("".to_string()));
    assert!(data.is_key_exists(""));
}

#[test]
fn empty_body_is_one_piece_without_value() {
    let data = PostData::from_string(String::new());
    assert_eq!(data.read_value(""), Some("NO_VALUE".to_string()));
    let data = PostData::from_string("&a=1".to_string());
    assert_eq!(data.read_value(""), Some("NO_VALUE".to_string()));
    assert_eq!(data.read_value("a"), Some("1".to_string()));
}

fn cut(piece: &str) -> (String, String) {
    split_pair(&piece.chars().collect())
}

#[test]
fn piece_is_cut_at_its_equals_signs() {
    assert_eq!(cut("a=b"), ("a".to_string(), "b".to_string()));
    assert_eq!(cut("a"), ("a".to_string(), "NO_VALUE".to_string()));
    assert_eq!(cut(""), ("".to_string(), "NO_VALUE".to_string()));
    assert_eq!(cut("="), ("".to_string(), "".to_string()));
    assert_eq!(cut("a=b=c=d"), ("a".to_string(), "b".to_string()));
    assert_eq!(cut("a%3Db=1"), ("a%3Db".to_string(), "1".to_string()));
}

#[test]
fn pairs_are_kept_as_they_are_given() {
    let pairs: Vec<(String, String)> = (0..10)
        .map(|i| (format!("k{}", i), format!("v%2{}", i)))
        .collect();
    let data = PostData::from_pairs(&pairs);
    assert_eq!(data.read_value("k0"), Some("v%20".to_string()));
    assert_eq!(data.read_value("k7"), Some("v%27".to_string()));
    assert_eq!(data.read_value("k8"), None);
    assert!(!data.is_key_exists(""));
    let data = PostData::from_pairs(&vec![("a".to_string(), "1".to_string()), ("a".to_string(), "2".to_string())]);
    assert_eq!(data.read_value("a"), Some("1".to_string()));
    assert_eq!(data.read_value(""), Some("".to_string()));
    let data = PostData::from_pairs(&Vec::new());
    assert_eq!(data.read_value(""), Some("".to_string()));
    assert!(!data.is_key_exists("a"));
}
