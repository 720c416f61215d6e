use parse_dont_validate::configuration_directories::{
    get_configuration_directories, split_on_commas,
};
use parse_dont_validate::non_empty::{head, NonEmptyVec};
use parse_dont_validate::slice;

fn strings(items: &[&str]) -> Vec<String> {
    items.iter().map(|item| item.to_string()).collect()
}

#[test]
fn empty_text_splits_into_one_empty_piece() {
    assert_eq!(split_on_commas(""), vec![String::new()]);
}

#[test]
fn unset_variable_gives_one_empty_directory() {
    let value = String::new();
    let pieces = split_on_commas(&value);
    assert_eq!(pieces.len(), 1);
    let list = NonEmptyVec::try_from_vec(pieces).expect("one element");
    assert_eq!(list.head(), "");
    assert!(list.tail().is_empty());
}

#[test]
fn empty_text_lists_the_empty_directory() {
    let config_dirs = get_configuration_directories("");
    assert!(config_dirs.tail().is_empty());
    assert_eq!(head(config_dirs), "");
}

#[test]
fn text_without_comma_is_one_piece() {
    assert_eq!(split_on_commas("/etc/app"), strings(&["/etc/app"]));
}

#[test]
fn commas_separate_the_pieces_in_order() {
    assert_eq!(
        split_on_commas("/etc/app,/home/user/.config/app"),
        strings(&["/etc/app", "/home/user/.config/app"])
    );
    assert_eq!(split_on_commas("c,a,b,a"), strings(&["c", "a", "b", "a"]));
}

#[test]
fn leading_trailing_and_doubled_commas_give_empty_pieces() {
    assert_eq!(split_on_commas(","), strings(&["", ""]));
    assert_eq!(split_on_commas("a,"), strings(&["a", ""]));
    assert_eq!(split_on_commas(",a"), strings(&["", "a"]));
    assert_eq!(split_on_commas("a,,b"), strings(&["a", "", "b"]));
    assert_eq!(split_on_commas(",,"), strings(&["", "", ""]));
}

#[test]
fn only_the_comma_separates() {
    assert_eq!(split_on_commas("a b;c:d"), strings(&["a b;c:d"]));
    assert_eq!(split_on_commas(" a , b "), strings(&[" a ", " b "]));
}

#[test]
fn pieces_are_cut_at_characters_not_bytes() {
    assert_eq!(split_on_commas("é,日本語,ü"), strings(&["é", "日本語", "ü"]));
    assert_eq!(split_on_commas("😀😀,"), strings(&["😀😀", ""]));
}

#[test]
fn split_agrees_with_the_standard_library() {
    let texts = ["", ",", "a", "a,b", ",a,,b,", "/etc/app,/home/user/.config/app", "é,,e"];
    for text in texts {
        let expected: Vec<String> = text.split(',').map(|piece| piece.to_string()).collect();
        assert_eq!(split_on_commas(text), expected);
    }
}

#[test]
fn joining_the_pieces_gives_the_text_back() {
    let texts = ["", ",", "a", "a,b", ",a,,b,", "/etc/app,/home/user/.config/app"];
    for text in texts {
        let pieces = split_on_commas(text);
        assert!(pieces.iter().all(|piece| !piece.contains(',')));
        assert_eq!(pieces.join(","), text);
    }
}

#[test]
fn first_listed_directory_is_the_head() {
    let config_dirs = get_configuration_directories("/etc/app,/home/user/.config/app");
    assert_eq!(config_dirs.head(), "/etc/app");
    assert_eq!(config_dirs.tail(), strings(&["/home/user/.config/app"]));
    assert_eq!(
        config_dirs.into_vec(),
        strings(&["/etc/app", "/home/user/.config/app"])
    );
}

#[test]
fn single_directory_has_no_others() {
    let config_dirs = get_configuration_directories("only-one");
    assert!(config_dirs.tail().is_empty());
    assert_eq!(head(config_dirs), "only-one");
}

#[test]
fn directories_are_what_parsing_the_pieces_gives() {
    let texts = ["", "a", "a,b,c", ",x"];
    for text in texts {
        let parsed = NonEmptyVec::try_from_vec(split_on_commas(text));
        assert_eq!(parsed, Ok(get_configuration_directories(text)));
    }
}

#[test]
fn unchecked_list_still_needs_the_fallible_head() {
    let config_dirs_list = split_on_commas("/etc/app,/opt/app");
    assert_eq!(slice::head(&config_dirs_list), Some(&"/etc/app".to_string()));
}

#[test]
fn splitting_joined_pieces_gives_the_pieces_back() {
    let lists = [
        strings(&[""]),
        strings(&["", ""]),
        strings(&["a"]),
        strings(&["a", "", "b"]),
        strings(&["/etc/app", "/home/user/.config/app", ""]),
    ];
    for pieces in lists {
        assert_eq!(split_on_commas(&pieces.join(",")), pieces);
    }
}
