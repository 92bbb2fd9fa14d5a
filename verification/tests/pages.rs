use para_review::next_urls::{detail_cache_key, get_next_url, put_next_url, DETAIL_NEXT_URLS_MAX};
use para_review::paging::{
    has_more_replies, page_limit, read_count, response_page_limit, response_total, total_told,
};
use para_review::json::{Json, JsonNumber};
use para_review::model::ReviewError;
use para_review::url_rule::{join_tail, replace_review_templates, url_plan, UrlPlan};
use para_review::fetch::extend_pairs;
use para_review::{Book, BookChapter, BookSource, NextUrls, ReviewItem, ReviewRule, SummaryResult};

fn pairs(list: &[(&str, &str)]) -> Vec<(String, String)> {
    list.iter().map(|(a, b)| (a.to_string(), b.to_string())).collect()
}

#[test]
fn a_page_limit_is_in_bounds() {
    assert_eq!(response_page_limit("https://a.test/r"), 20);
    assert_eq!(response_page_limit("https://a.test/r?limit=1"), 1);
    assert_eq!(response_page_limit("https://a.test/r?limit=50"), 50);
    assert_eq!(response_page_limit("https://a.test/r?limit=51"), 50);
    assert_eq!(response_page_limit("https://a.test/r?limit=0"), 20);
    assert_eq!(response_page_limit("https://a.test/r?limit=-3"), 20);
    assert_eq!(response_page_limit("https://a.test/r?limit=%2B7"), 7);
    assert_eq!(response_page_limit("https://a.test/r?limit=4294967296"), 20);
    assert_eq!(response_page_limit("https://a.test/r?x=1&LIMIT=30&limit=40"), 30);
    assert_eq!(response_page_limit("https://a.test/r?limit=x&limit=40"), 20);
    assert_eq!(response_page_limit("/r?limit=30"), 20);
    assert_eq!(response_page_limit("https://a.test/r#limit=30"), 20);
}

#[test]
fn a_page_limit_goes_by_the_query() {
    assert_eq!(page_limit(&None), 20);
    assert_eq!(page_limit(&Some(pairs(&[]))), 20);
    assert_eq!(page_limit(&Some(pairs(&[("a", "9"), ("Limit", "8"), ("limit", "7")]))), 8);
}

#[test]
fn a_total_is_found_in_data_first() {
    assert_eq!(response_total(r#"{"total":5}"#), Some(5));
    assert_eq!(response_total(r#"{"total":5,"data":{"total":6}}"#), Some(6));
    assert_eq!(response_total(r#"{"total":5,"data":{}}"#), None);
    assert_eq!(response_total(r#"{"total":5,"data":null}"#), None);
    assert_eq!(response_total(r#"{"total":-5}"#), Some(0));
    assert_eq!(response_total(r#"{"total":18446744073709551615}"#), Some(u64::MAX));
    assert_eq!(response_total(r#"{"total":"5"}"#), None);
    assert_eq!(response_total(r#"{"total":5.5}"#), None);
    assert_eq!(response_total("[5]"), None);
    assert_eq!(response_total(r#" {"total":5}"#), Some(5));
    assert_eq!(response_total("no json"), None);
    let object: serde_json::Map<String, serde_json::Value> =
        serde_json::from_str(r#"{"data":{"total":9}}"#).unwrap();
    assert_eq!(total_told(&object), Some(9));
}

#[test]
fn negative_integers_count_as_zero() {
    let number = |int: Option<i64>, uint: Option<u64>| {
        Some(Json::Number(JsonNumber { text: String::new(), int, uint }))
    };
    assert_eq!(read_count(number(Some(-1), None)), Some(0));
    assert_eq!(read_count(number(Some(4), Some(4))), Some(4));
    assert_eq!(read_count(number(None, Some(u64::MAX))), Some(u64::MAX));
    assert_eq!(read_count(number(None, None)), None);
    assert_eq!(read_count(Some(Json::Text("4".to_string()))), None);
    assert_eq!(read_count(None), None);
}

#[test]
fn more_replies_go_by_the_total_or_by_the_full_page() {
    assert!(has_more_replies(1, 20, Some(21), 20));
    assert!(!has_more_replies(1, 20, Some(20), 20));
    assert!(!has_more_replies(2, 20, Some(21), 1));
    assert!(!has_more_replies(1, 20, Some(21), 0));
    assert!(has_more_replies(1, 20, None, 20));
    assert!(!has_more_replies(1, 20, None, 19));
    assert!(has_more_replies(u32::MAX, u32::MAX, Some(u64::MAX), 1));
}

fn place() -> (BookSource, Book, BookChapter) {
    let source = BookSource { book_source_url: "s".to_string(), ..Default::default() };
    let book = Book { book_url: "b".to_string(), ..Default::default() };
    let chapter = BookChapter { url: "c".to_string(), ..Default::default() };
    (source, book, chapter)
}

#[test]
fn a_key_names_the_page() {
    let (source, book, chapter) = place();
    assert_eq!(
        detail_cache_key("ns", &source, &book, &chapter, -7, "data", 2),
        "ns\0s\0b\0c\0-7\0data\02",
    );
    let key = |index, data, page| {
        detail_cache_key("ns", &source, &book, &chapter, index, data, page)
    };
    assert_ne!(key(1, "1", 1), key(11, "", 1));
    assert_ne!(key(1, "", 11), key(1, "1", 1));
}

#[test]
fn a_remembered_address_comes_back() {
    let mut cache = NextUrls::new();
    assert_eq!(cache.len(), 0);
    assert_eq!(get_next_url(&cache, "k"), None);
    put_next_url(&mut cache, "k".to_string(), "u".to_string());
    put_next_url(&mut cache, "l".to_string(), "v".to_string());
    put_next_url(&mut cache, "k".to_string(), "w".to_string());
    assert_eq!(get_next_url(&cache, "k"), Some("w".to_string()));
    assert_eq!(get_next_url(&cache, "l"), Some("v".to_string()));
    assert_eq!(cache.len(), 2);
}

#[test]
fn no_more_addresses_are_remembered_than_there_is_room_for() {
    let mut cache = NextUrls::new();
    for i in 0..DETAIL_NEXT_URLS_MAX {
        put_next_url(&mut cache, format!("k{}", i), format!("u{}", i));
    }
    assert_eq!(cache.len(), 512);
    put_next_url(&mut cache, "k3".to_string(), "again".to_string());
    assert_eq!(cache.len(), 512);
    assert_eq!(get_next_url(&cache, "k3"), Some("again".to_string()));
    put_next_url(&mut cache, "new".to_string(), "v".to_string());
    assert_eq!(cache.len(), 512);
    assert_eq!(get_next_url(&cache, "new"), Some("v".to_string()));
    let mut forgotten = 0;
    for i in 0..DETAIL_NEXT_URLS_MAX {
        match get_next_url(&cache, &format!("k{}", i)) {
            None => forgotten += 1,
            Some(url) => assert!(url == format!("u{}", i) || (i == 3 && url == "again")),
        }
    }
    assert_eq!(forgotten, 1);
}

#[test]
fn placeholders_stand_in_single_or_double_braces() {
    let fill = |value| replace_review_templates(value, -1, "d", "r", 4);
    assert_eq!(fill("{paraIndex}{{paraIndex}}"), "-1-1");
    assert_eq!(fill("{paraData}{reviewId}{page}"), "dr4");
    assert_eq!(fill("{{{page}}}"), "{4}");
    assert_eq!(fill("{PAGE}"), "{PAGE}");
    assert_eq!(fill("no braces"), "no braces");
    assert_eq!(replace_review_templates("{paraData}", 1, "{page}", "", 7), "7");
    assert_eq!(replace_review_templates("{paraData}", 1, "{paraIndex}", "", 7), "{paraIndex}");
}

#[test]
fn a_script_may_follow_a_mark() {
    match url_plan(" http://a \n@JS: run() ") {
        UrlPlan::Script { script, result } => {
            assert_eq!(script, "run()");
            assert_eq!(result, "http://a");
        }
        other => panic!("{:?}", other),
    }
    match url_plan("@js:1") {
        UrlPlan::Script { script, result } => {
            assert_eq!(script, "1");
            assert_eq!(result, "@js:1");
        }
        other => panic!("{:?}", other),
    }
    match url_plan("JS: 1 ") {
        UrlPlan::Script { script, result } => {
            assert_eq!(script, "1");
            assert_eq!(result, "JS: 1 ");
        }
        other => panic!("{:?}", other),
    }
    assert!(matches!(url_plan("http://a"), UrlPlan::Plain));
}

#[test]
fn a_script_may_stand_between_tags() {
    match url_plan("http://a <JS> run() </js> tail ") {
        UrlPlan::Tagged { script, result, tail } => {
            assert_eq!(script, " run() ");
            assert_eq!(result, "http://a");
            assert_eq!(tail, "tail");
        }
        other => panic!("{:?}", other),
    }
    assert!(matches!(url_plan("http://a <js> run()"), UrlPlan::Unclosed));
    assert!(matches!(url_plan("</js><js>x"), UrlPlan::Unclosed));
    assert_eq!(join_tail("v", ""), "v");
    assert_eq!(join_tail("v", "/t"), "v/t");
    assert_eq!(join_tail("v", "a@result/@result"), "av/v");
}

#[test]
fn the_headers_of_the_options_count() {
    let base = pairs(&[("A", "1"), ("B", "2")]);
    let all = extend_pairs(base, &pairs(&[("B", "3"), ("C", "4")]));
    assert_eq!(all.len(), 3);
    for (name, value) in [("A", "1"), ("B", "3"), ("C", "4")] {
        assert!(all.contains(&(name.to_string(), value.to_string())));
    }
}

#[test]
fn settings_that_are_blank_are_not_filled_in() {
    let some = |s: &str| Some(s.to_string());
    let mut rule = ReviewRule { review_url: some("old"), ..Default::default() };
    assert_eq!(rule.detail_url(), Some("old"));
    rule.review_detail_url = some(" ");
    assert_eq!(rule.detail_url(), Some("old"));
    rule.review_detail_url = some(" new ");
    assert_eq!(rule.detail_url(), Some(" new "));
    assert_eq!(rule.detail_list_rule(), None);
    rule.detail_list_rule = some("l");
    assert_eq!(rule.detail_list_rule(), Some("l"));
    assert_eq!(rule.detail_content_rule(), None);
    assert_eq!(rule.reply_content_rule(), None);
    rule.content_rule = some("c");
    assert_eq!(rule.detail_content_rule(), Some("c"));
    assert_eq!(rule.reply_content_rule(), Some("c"));
    rule.detail_content_rule = some("d");
    rule.reply_content_rule = some("r");
    assert_eq!(rule.detail_content_rule(), Some("d"));
    assert_eq!(rule.reply_content_rule(), Some("r"));
}

#[test]
fn failures_say_what_is_missing() {
    for (error, message) in [
        (ReviewError::RuleMissing, "段评规则未配置"),
        (ReviewError::RuleDisabled, "段评规则未启用"),
        (ReviewError::DetailListRuleMissing, "段评详情列表规则未配置"),
        (ReviewError::DetailContentRuleMissing, "段评详情内容规则未配置"),
        (ReviewError::DetailUrlMissing, "段评详情地址未配置"),
        (ReviewError::DetailUnreadable, "段评详情解析为空"),
        (ReviewError::ReplyUrlMissing, "段评回复地址未配置"),
        (ReviewError::ReplyListRuleMissing, "段评回复列表规则未配置"),
        (ReviewError::ReplyContentRuleMissing, "段评回复内容规则未配置"),
        (ReviewError::ReplyUnreadable, "段评回复解析为空"),
        (ReviewError::UrlEmpty, "段评请求地址为空"),
    ] {
        assert_eq!(error.message(), Some(message));
    }
    assert_eq!(ReviewError::CallFailed.message(), None);
}

#[test]
fn a_copy_of_a_review_has_its_replies() {
    let reply = ReviewItem { name: Some("b".to_string()), ..Default::default() };
    let item = ReviewItem {
        name: Some("a".to_string()),
        badges: vec!["x".to_string()],
        replies: vec![reply],
        ..Default::default()
    };
    let copy = item.clone();
    assert_eq!(copy.name, item.name);
    assert_eq!(copy.badges, item.badges);
    assert_eq!(copy.replies.len(), 1);
    assert_eq!(copy.replies[0].name.as_deref(), Some("b"));
    let summary = SummaryResult::default();
    assert!(summary.counts.is_empty() && summary.keys.is_empty());
}
