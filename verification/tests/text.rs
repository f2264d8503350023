use place_directory::text::{
    chars_of, extract_hash_tags, extract_ids, hash_tags_from, remove_hash_tags, tidy,
    tidy_replaced, trim, HASH_TAG_PATTERN, ID_LIST_SEPARATOR,
};

fn strings(list: &[&str]) -> Vec<String> {
    list.iter().map(|s| s.to_string()).collect()
}

#[test]
fn ids_are_split_at_commas_and_trimmed() {
    assert_eq!(extract_ids("abc"), strings(&["abc"]));
    assert_eq!(extract_ids("a,b,c"), strings(&["a", "b", "c"]));
    assert_eq!(extract_ids("\t a , b,\nc "), strings(&["a", "b", "c"]));
    assert_eq!(extract_ids("a b, c"), strings(&["a b", "c"]));
}

#[test]
fn empty_ids_are_left_out() {
    assert_eq!(extract_ids(""), strings(&[]));
    assert_eq!(extract_ids(","), strings(&[]));
    assert_eq!(extract_ids(" , ,, "), strings(&[]));
    assert_eq!(extract_ids(",a,,b,"), strings(&["a", "b"]));
    assert_eq!(ID_LIST_SEPARATOR, ',');
}

#[test]
fn ids_may_hold_any_other_character() {
    assert_eq!(extract_ids("ä;ö , \u{3000}ü\u{a0}"), strings(&["ä;ö", "ü"]));
}

#[test]
fn hash_tags_are_found_without_their_hash_signs() {
    assert_eq!(
        extract_hash_tags("some #tag and #another-tag, #x_1"),
        strings(&["tag", "another-tag", "x_1"])
    );
    assert_eq!(extract_hash_tags("#first"), strings(&["first"]));
    assert_eq!(extract_hash_tags("no tags # here"), strings(&[]));
    assert_eq!(extract_hash_tags(""), strings(&[]));
}

#[test]
fn hash_tags_end_where_the_words_end() {
    assert_eq!(extract_hash_tags("#a--b #c- #-d"), strings(&["a", "c"]));
    assert_eq!(extract_hash_tags("#one#two"), strings(&["one", "two"]));
    assert_eq!(extract_hash_tags("#grün-öko!"), strings(&["grün-öko"]));
}

#[test]
fn hash_tags_are_taken_from_what_was_captured() {
    assert_eq!(hash_tags_from(None), strings(&[]));
    assert_eq!(hash_tags_from(Some(vec![])), strings(&[]));
    assert_eq!(
        hash_tags_from(Some(vec![Some("a".into()), None, Some("b".into())])),
        strings(&["a", "b"])
    );
}

#[test]
fn the_pattern_names_the_group() {
    assert_eq!(HASH_TAG_PATTERN, r"#(?P<tag>\w+((-\w+)*)?)");
}

#[test]
fn hash_tags_are_removed_and_the_rest_is_tidied() {
    assert_eq!(remove_hash_tags("some #tag text"), "some text");
    assert_eq!(remove_hash_tags("#a, #b  c"), "c");
    assert_eq!(remove_hash_tags("  plain, text  "), "plain text");
    assert_eq!(remove_hash_tags("#only"), "");
    assert_eq!(remove_hash_tags(""), "");
    assert_eq!(remove_hash_tags("keep # this #not-this"), "keep # this");
}

#[test]
fn tidying_halves_runs_of_spaces_from_the_left() {
    assert_eq!(tidy("a  b"), "a b");
    assert_eq!(tidy("a   b"), "a  b");
    assert_eq!(tidy("a    b"), "a  b");
    assert_eq!(tidy("a     b"), "a   b");
    assert_eq!(tidy("a , b"), "a  b");
    assert_eq!(tidy(",,"), "");
    assert_eq!(tidy(" \t x,y \n"), "xy");
}

#[test]
fn tidying_what_was_replaced() {
    assert_eq!(tidy_replaced("a  b", Some(" c,d ".into())), "cd");
    assert_eq!(tidy_replaced(" a,  b ", None), "a b");
}

#[test]
fn trimming_takes_white_space_off_both_ends() {
    assert_eq!(trim(&chars_of("  a b \t\n")), "a b");
    assert_eq!(trim(&chars_of("a")), "a");
    assert_eq!(trim(&chars_of(" \u{2003} ")), "");
    assert_eq!(trim(&chars_of("")), "");
    assert_eq!(chars_of("aä"), vec!['a', 'ä']);
}

#[test]
fn white_space_is_what_the_library_takes_it_to_be() {
    let listed = |code: u32| {
        (0x0009..=0x000D).contains(&code)
            || code == 0x0020
            || code == 0x0085
            || code == 0x00A0
            || code == 0x1680
            || (0x2000..=0x200A).contains(&code)
            || code == 0x2028
            || code == 0x2029
            || code == 0x202F
            || code == 0x205F
            || code == 0x3000
    };
    for code in 0..=0x10FFFF_u32 {
        if let Some(c) = char::from_u32(code) {
            assert_eq!(c.is_whitespace(), listed(code));
            let text: String = [c, 'x', c].iter().collect();
            let expected = if listed(code) { "x".to_string() } else { text.clone() };
            if code < 0x3100 {
                assert_eq!(trim(&chars_of(&text)), expected);
            }
        }
    }
}
