use minigrep::{GrepError, SearchParams};

fn args(a: &[&str]) -> Vec<String> {
    a.iter().map(|&s| String::from(s)).collect::<Vec<String>>()
}

#[test]
fn search_params_zero_args() {
    let params = SearchParams::from_args(&Vec::new());
    assert!(params.is_err());
}

#[test]
fn search_params_just_prog() {
    let params = SearchParams::from_args(&args(&vec!["minigrep"]));
    assert!(params.is_err());
}

#[test]
fn search_params_one_arg() {
    let params = SearchParams::from_args(&args(&vec!["minigrep", "two"]));
    assert!(params.is_err());
}

#[test]
fn search_params_two_args() {
    let params = SearchParams::from_args(&args(&vec!["minigrep", "two", "three"]));
    let params = params.unwrap();
    assert_eq!(params.term, "two");
    assert_eq!(params.filename, "three");
}

#[test]
fn search_params_three_args() {
    let params = SearchParams::from_args(&args(&vec!["minigrep", "two", "three", "four"]));
    let params = params.unwrap();
    assert_eq!(params.term, "two three");
    assert_eq!(params.filename, "four");
}

#[test]
fn search_params_args_case_sensitive() {
    let params =
        SearchParams::from_args(&args(&vec!["minigrep", "-i", "term", "filename"])).unwrap();
    assert_eq!(params.term, "term");
    assert_eq!(params.filename, "filename");
    assert_eq!(params.ignore_case, true);

    let params = SearchParams::from_args(&args(&vec!["minigrep", "term", "filename"])).unwrap();
    assert_eq!(params.term, "term");
    assert_eq!(params.filename, "filename");
    assert_eq!(params.ignore_case, false);
}

#[test]
fn flag_with_one_token_left_is_not_enough() {
    let params = SearchParams::from_args(&args(&vec!["minigrep", "-i", "file"]));
    assert!(matches!(params, Err(GrepError::NotEnoughParams)));
    let params = SearchParams::from_args(&args(&vec!["minigrep", "-i"]));
    assert!(matches!(params, Err(GrepError::NotEnoughParams)));
}

#[test]
fn flag_is_only_read_right_after_the_program() {
    let params = SearchParams::from_args(&args(&vec!["minigrep", "a", "-i", "b", "f"])).unwrap();
    assert_eq!(params.term, "a -i b");
    assert_eq!(params.filename, "f");
    assert_eq!(params.ignore_case, false);
}

#[test]
fn flag_with_many_words() {
    let params =
        SearchParams::from_args(&args(&vec!["minigrep", "-i", "Mr.", "Roboto", "lyrics.txt"]))
            .unwrap();
    assert_eq!(params.term, "Mr. Roboto");
    assert_eq!(params.filename, "lyrics.txt");
    assert_eq!(params.ignore_case, true);
}

#[test]
fn empty_term_or_filename_is_not_enough() {
    let params = SearchParams::from_args(&args(&vec!["minigrep", "", "file"]));
    assert!(matches!(params, Err(GrepError::NotEnoughParams)));
    let params = SearchParams::from_args(&args(&vec!["minigrep", "term", ""]));
    assert!(matches!(params, Err(GrepError::NotEnoughParams)));
}

#[test]
fn other_dash_tokens_belong_to_the_term() {
    let params = SearchParams::from_args(&args(&vec!["minigrep", "-v", "x", "f"])).unwrap();
    assert_eq!(params.term, "-v x");
    assert_eq!(params.ignore_case, false);
}
