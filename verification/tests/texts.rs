use para_review::content::{
    content_fields, nonempty, parse_content_protocol, parse_i64, read_badges, read_protocol,
    split_badges, undecided, value_i64, value_string,
};
use para_review::json::{Json, JsonNumber};
use para_review::text::{
    blank, decimal_text, find_lowered, has, read_i64, read_u32, replace, same, same_lowered,
    starts_lowered, trim, white,
};

fn owned(texts: &[&str]) -> Vec<String> {
    texts.iter().map(|t| t.to_string()).collect()
}

fn number(text: &str, int: Option<i64>, uint: Option<u64>) -> Json {
    Json::Number(JsonNumber { text: text.to_string(), int, uint })
}

#[test]
fn white_space_is_what_the_standard_says() {
    for n in 0..=0x10ffffu32 {
        if let Some(c) = char::from_u32(n) {
            assert_eq!(white(c), c.is_whitespace(), "{:?}", c);
        }
    }
}

#[test]
fn trimming_takes_both_sides() {
    for s in ["", " ", "a", "  a b \t\n", "\u{3000}段评\u{a0}", "\u{feff}x", "x\u{200b} "] {
        assert_eq!(trim(s), s.trim());
        assert_eq!(trim(trim(s)), trim(s));
        assert_eq!(blank(s), s.trim().is_empty());
    }
}

#[test]
fn replacing_goes_from_left_to_right() {
    for (s, pat, by) in [
        ("aaa", "aa", "b"),
        ("{page}{page}", "{page}", "3"),
        ("{{page}}", "{page}", "{page}"),
        ("段评段评", "评", "落"),
        ("abc", "x", "y"),
        ("", "x", "y"),
        ("xx", "x", ""),
    ] {
        assert_eq!(replace(s, pat, by), s.replace(pat, by));
        assert_eq!(has(s, pat), s.contains(pat));
    }
}

#[test]
fn case_makes_no_difference_to_ascii_letters_alone() {
    assert_eq!(find_lowered("http://a/@JS:x", "@js:", 0), Some(9));
    assert_eq!(find_lowered("段评@Js:x", "@js:", 0), Some(2));
    assert_eq!(find_lowered("@js:@js:", "@js:", 1), Some(4));
    assert_eq!(find_lowered("none", "@js:", 0), None);
    assert!(starts_lowered("JS:1", "js:"));
    assert!(!starts_lowered(" js:1", "js:"));
    assert!(same_lowered("PoSt", "POST"));
    assert!(!same_lowered("\u{212a}", "k"));
    assert!(same("段", "段"));
    assert!(!same("a", "A"));
}

#[test]
fn numbers_are_read_as_the_standard_reads_them() {
    for s in [
        "", "0", "-0", "+7", "+", "-", "--1", "12", "007", " 1", "1 ", "1.0", "१", "4294967295",
        "4294967296", "-1", "9223372036854775807", "9223372036854775808", "-9223372036854775808",
        "-9223372036854775809", "100000000000000000000000000000000000000000000",
        "000000000000000000000000000000000000000000000000005",
    ] {
        assert_eq!(read_i64(s), s.parse::<i64>().ok(), "{:?}", s);
        assert_eq!(read_u32(s), s.parse::<u32>().ok(), "{:?}", s);
    }
}

#[test]
fn a_number_written_down_is_read_back() {
    for n in [0, 1, -1, 9, 10, -10, 12345, i64::MAX, i64::MIN] {
        assert_eq!(decimal_text(n), n.to_string());
        assert_eq!(read_i64(&decimal_text(n)), Some(n));
    }
}

#[test]
fn a_kept_text_is_trimmed_and_not_empty() {
    assert_eq!(nonempty("  a ".to_string()), Some("a".to_string()));
    assert_eq!(nonempty(" \n".to_string()), None);
    assert_eq!(nonempty(String::new()), None);
}

#[test]
fn a_floating_point_number_counts_only_where_there_is_no_integer() {
    assert_eq!(parse_i64(" 12 ", Some(99)), Some(12));
    assert_eq!(parse_i64("12.7", Some(12)), Some(12));
    assert_eq!(parse_i64("many", None), None);
}

#[test]
fn values_are_read_as_texts() {
    assert_eq!(value_string(Some(&Json::Text(" hi ".to_string()))), Some("hi".to_string()));
    assert_eq!(value_string(Some(&Json::Text("  ".to_string()))), None);
    assert_eq!(value_string(Some(&number("1.5", None, None))), Some("1.5".to_string()));
    assert_eq!(value_string(Some(&Json::Bool(true))), Some("true".to_string()));
    assert_eq!(value_string(Some(&Json::Bool(false))), Some("false".to_string()));
    assert_eq!(value_string(Some(&Json::Null)), None);
    assert_eq!(value_string(Some(&Json::Array)), None);
    assert_eq!(value_string(None), None);
}

#[test]
fn values_are_read_as_numbers() {
    assert_eq!(value_i64(Some(&number("3", Some(3), Some(3))), None), Some(3));
    assert_eq!(value_i64(Some(&number("3.9", None, None)), Some(3)), Some(3));
    assert_eq!(value_i64(Some(&Json::Text(" 4 ".to_string())), None), Some(4));
    assert_eq!(value_i64(Some(&Json::Text("4.2".to_string())), Some(4)), Some(4));
    assert_eq!(value_i64(Some(&Json::Bool(true)), Some(1)), None);
    assert_eq!(value_i64(None, Some(1)), None);
    assert_eq!(undecided(Some(&number("3", Some(3), Some(3)))), None);
    assert_eq!(undecided(Some(&number("3.9", None, None))), Some("3.9".to_string()));
    assert_eq!(undecided(Some(&Json::Text(" 4.2 ".to_string()))), Some("4.2".to_string()));
    assert_eq!(undecided(Some(&Json::Text("4".to_string()))), None);
    assert_eq!(undecided(Some(&Json::Null)), None);
}

#[test]
fn members_come_from_the_object() {
    let raw = r#" {"text":" t ","time":20240101,"audio":true,"likeCount":2.5,"replyCount":-7} "#;
    let fields = content_fields(raw).unwrap();
    assert_eq!(undecided(fields.like_count.as_ref()), Some("2.5".to_string()));
    assert_eq!(undecided(fields.reply_count.as_ref()), None);
    let said = read_protocol(&fields, Some(2), None).unwrap();
    assert_eq!(said.text.as_deref(), Some("t"));
    assert_eq!(said.time.as_deref(), Some("20240101"));
    assert_eq!(said.audio.as_deref(), Some("true"));
    assert_eq!(said.image, None);
    assert_eq!(said.reply_to_name, None);
    assert_eq!(said.like_count, Some(2));
    assert_eq!(said.reply_count, Some(-7));
}

#[test]
fn an_integer_counts_the_same_as_number_and_as_text() {
    let a = parse_content_protocol(r#"{"likeCount":3}"#, None, None).unwrap();
    let b = parse_content_protocol(r#"{"likeCount":"3"}"#, None, None).unwrap();
    assert_eq!(a.like_count, b.like_count);
    let a = parse_content_protocol(r#"{"text":-12}"#, None, None).unwrap();
    assert_eq!(a.text.as_deref(), Some("-12"));
}

#[test]
fn what_says_nothing_is_no_content_object() {
    for raw in ["", "plain", "3", "null", "[]", "{}", r#"{"text":"  "}"#, r#"{"text":null}"#] {
        assert!(parse_content_protocol(raw, None, None).is_none(), "{}", raw);
    }
    assert!(parse_content_protocol(r#"{"likeCount":"x"}"#, None, None).is_none());
    assert!(parse_content_protocol(r#"{"likeCount":"1.5"}"#, Some(1), None).is_some());
}

#[test]
fn badges_stand_between_separators() {
    assert_eq!(split_badges(" a | b,c\n\n d ".to_string()), owned(&["a", "b", "c", "d"]));
    assert_eq!(split_badges("  ".to_string()), owned(&[]));
    assert_eq!(split_badges(",|".to_string()), owned(&[]));
    assert_eq!(split_badges("one".to_string()), owned(&["one"]));
}

#[test]
fn badges_may_be_a_list() {
    assert_eq!(split_badges(r#" ["a,b"," c ",""] "#.to_string()), owned(&["a,b", "c"]));
    assert_eq!(split_badges("[1,2]".to_string()), owned(&["[1", "2]"]));
    assert_eq!(split_badges("[x]".to_string()), owned(&["[x]"]));
    assert_eq!(split_badges("[]".to_string()), owned(&[]));
    assert_eq!(read_badges("[a]", Some(owned(&[" q "]))), owned(&["q"]));
    assert_eq!(read_badges("a", Some(owned(&["q"]))), owned(&["a"]));
}

#[test]
fn badges_in_a_row_come_back() {
    let texts = ["a b", "]", "[c", "徽章"];
    for (first, between, last) in
        [("", ",", ""), (" ", " | ", " "), ("\n,", "\n \n", "|"), ("||", " ,|\n ", " \n")]
    {
        let value = format!("{}{}{}", first, texts.join(between), last);
        assert_eq!(split_badges(value), owned(&texts));
    }
    assert_eq!(split_badges(" ,|\n ".to_string()), owned(&[]));
}
