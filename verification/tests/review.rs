use para_review::content::parse_content_protocol;
use para_review::paging::{response_page_limit, response_total};
use para_review::url_rule::replace_review_templates;

#[test]
fn parses_content_protocol() {
    let p = parse_content_protocol(
        r#"{"text":"你好","replyToName":"甲","img":"/a.png","likeCount":3,"replyCount":"4"}"#,
        None,
        None,
    )
    .unwrap();
    assert_eq!(p.text.as_deref(), Some("你好"));
    assert_eq!(p.reply_to_name.as_deref(), Some("甲"));
    assert_eq!(p.like_count, Some(3));
    assert_eq!(p.reply_count, Some(4));
}

#[test]
fn unknown_json_is_plain_content() {
    assert!(parse_content_protocol(r#"{"other":"value"}"#, None, None).is_none());
}

#[test]
fn reply_page_has_more_uses_total_and_limit() {
    assert_eq!(response_total(r#"{"data":{"total":2}}"#), Some(2));
    assert_eq!(response_page_limit("https://a.test/replies?limit=20"), 20);
    assert_eq!(response_page_limit("https://a.test/replies?limit=200"), 50);
}

#[test]
fn review_templates_replace_page_and_ids() {
    assert_eq!(
        replace_review_templates(
            "/r/{{reviewId}}/{{paraIndex}}/{{paraData}}?page={{page}}",
            2,
            "anchor",
            "thread-1",
            3,
        ),
        "/r/thread-1/2/anchor?page=3"
    );
}
