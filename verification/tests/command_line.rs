use google_hosts_manager::cli::{
    parse_arguments, Command, InvalidArgument, Operations, REMOVE_V4, REMOVE_V6, UPDATE_V4,
    UPDATE_V6,
};

fn words(text: &[&str]) -> Vec<String> {
    text.iter().map(|word| word.to_string()).collect()
}

const NONE: Operations = Operations {
    update_v4: false,
    update_v6: false,
    remove_v4: false,
    remove_v6: false,
};

#[test]
fn operation_words_have_their_fixed_text() {
    assert_eq!(UPDATE_V4, "update-v4");
    assert_eq!(UPDATE_V6, "update-v6");
    assert_eq!(REMOVE_V4, "remove-v4");
    assert_eq!(REMOVE_V6, "remove-v6");
}

#[test]
fn no_argument_asks_for_usage() {
    assert_eq!(parse_arguments(&[]), Ok(Command::Usage));
}

#[test]
fn each_word_sets_its_own_operation() {
    assert_eq!(
        parse_arguments(&words(&["update-v4"])),
        Ok(Command::Apply(Operations { update_v4: true, ..NONE }))
    );
    assert_eq!(
        parse_arguments(&words(&["update-v6"])),
        Ok(Command::Apply(Operations { update_v6: true, ..NONE }))
    );
    assert_eq!(
        parse_arguments(&words(&["remove-v4"])),
        Ok(Command::Apply(Operations { remove_v4: true, ..NONE }))
    );
    assert_eq!(
        parse_arguments(&words(&["remove-v6"])),
        Ok(Command::Apply(Operations { remove_v6: true, ..NONE }))
    );
}

#[test]
fn the_order_of_the_words_does_not_matter() {
    let expected = Ok(Command::Apply(Operations { update_v4: true, remove_v6: true, ..NONE }));
    assert_eq!(parse_arguments(&words(&["update-v4", "remove-v6"])), expected);
    assert_eq!(parse_arguments(&words(&["remove-v6", "update-v4"])), expected);
}

#[test]
fn a_repeated_word_counts_once() {
    assert_eq!(
        parse_arguments(&words(&["remove-v4", "remove-v4", "remove-v4"])),
        Ok(Command::Apply(Operations { remove_v4: true, ..NONE }))
    );
}

#[test]
fn all_four_words_together() {
    assert_eq!(
        parse_arguments(&words(&["remove-v6", "remove-v4", "update-v6", "update-v4"])),
        Ok(Command::Apply(Operations {
            update_v4: true,
            update_v6: true,
            remove_v4: true,
            remove_v6: true,
        }))
    );
}

#[test]
fn an_unknown_word_is_returned_as_the_error() {
    assert_eq!(
        parse_arguments(&words(&["update-v5"])),
        Err(InvalidArgument { token: "update-v5".to_string() })
    );
}

#[test]
fn an_unknown_word_after_valid_ones_stops_everything() {
    assert_eq!(
        parse_arguments(&words(&["update-v4", "remove-v4", "bogus"])),
        Err(InvalidArgument { token: "bogus".to_string() })
    );
}

#[test]
fn the_first_unknown_word_is_the_one_reported() {
    assert_eq!(
        parse_arguments(&words(&["update-v4", "first", "second"])),
        Err(InvalidArgument { token: "first".to_string() })
    );
}

#[test]
fn words_are_matched_exactly() {
    assert_eq!(
        parse_arguments(&words(&["Update-v4"])),
        Err(InvalidArgument { token: "Update-v4".to_string() })
    );
    assert_eq!(
        parse_arguments(&words(&["update-v4 "])),
        Err(InvalidArgument { token: "update-v4 ".to_string() })
    );
    assert_eq!(parse_arguments(&words(&[""])), Err(InvalidArgument { token: String::new() }));
}
