use para_review::dialog::Step;
use para_review::item::{parse_items, Reading, Role};
use para_review::model::Place;
use para_review::next_urls::{get_next_url, put_next_url};
use para_review::page_run::open_page;
use para_review::{
    get_detail, get_replies, get_summary, Answer, Book, BookChapter, BookSource, DetailPage,
    FetchResponse, NextUrls, Question, ReviewError, ReviewRule, SummaryResult, UrlSuffix,
};

/// A source as the tests have it: rules name parts `name=value`, parted by `;`. A list is parted by
/// `/` for reviews, by `+` for replies that come with a review.
struct Host {
    body: String,
    url: String,
    suffix: UrlSuffix,
    fail: Option<&'static str>,
    log: Vec<String>,
}

impl Host {
    fn new(body: &str) -> Host {
        Host {
            body: body.to_string(),
            url: "http://a.test/final".to_string(),
            suffix: UrlSuffix::default(),
            fail: None,
            log: Vec::new(),
        }
    }

    fn reply(&mut self, question: Question) -> Answer {
        self.log.push(format!("{:?}", question));
        match question {
            Question::OpenBridge
            | Question::SetHeaders(_)
            | Question::AcquireRate
            | Question::AssignVars(_)
            | Question::ForkVars { .. } => Answer::Ready,
            Question::EvalScript { script, vars } => {
                if self.fail == Some("script") {
                    return Answer::Failed;
                }
                let result = vars.entries.iter().find(|(n, _)| n == "result").unwrap();
                Answer::Text(format!("{}<{}>", script, result.1))
            }
            Question::SplitSuffix(text) => Answer::Split(text, self.suffix.clone()),
            Question::Resolve { url, base } => {
                if url.is_empty() {
                    Answer::Text(String::new())
                } else {
                    Answer::Text(format!("{}^{}", base, url))
                }
            }
            Question::BridgeHeaders => {
                Answer::Pairs(vec![("UA".to_string(), "x".to_string())])
            }
            Question::Get(_) | Question::Post(_) => {
                if self.fail == Some("request") {
                    return Answer::Failed;
                }
                Answer::Response(FetchResponse { url: self.url.clone(), body: self.body.clone() })
            }
            Question::Elements { rule, text, .. } => {
                if rule == "none" {
                    return Answer::Texts(Vec::new());
                }
                if rule == "nested" {
                    let part = self.part("replies", &text);
                    let parts = part.split('+').filter(|p| !p.is_empty());
                    let parts = parts.map(|p| p.replace('~', "=").replace('!', ";"));
                    return Answer::Texts(parts.collect());
                }
                Answer::Texts(text.split('/').map(|p| p.to_string()).collect())
            }
            Question::Field { rule, text, .. } => Answer::Text(self.part(&rule, &text)),
            Question::ReadFloat(text) => {
                Answer::Number(text.parse::<f64>().ok().map(|v| v as i64))
            }
        }
    }

    fn part(&self, name: &str, text: &str) -> String {
        let start = format!("{}=", name);
        text.split(';')
            .find(|p| p.starts_with(&start))
            .map(|p| p[start.len()..].to_string())
            .unwrap_or_default()
    }

    fn asked(&self, part: &str) -> bool {
        self.log.iter().any(|q| q.contains(part))
    }
}

fn some(s: &str) -> Option<String> {
    Some(s.to_string())
}

fn rule() -> ReviewRule {
    ReviewRule {
        review_summary_url: some("http://a/sum"),
        summary_list_rule: some("list"),
        summary_paragraph_index_rule: some("index"),
        summary_count_rule: some("count"),
        summary_paragraph_data_rule: some("data"),
        review_detail_url: some("http://a/d?page={{page}}"),
        review_detail_next_page_url: some("next"),
        detail_list_rule: some("list"),
        detail_id_rule: some("id"),
        detail_avatar_rule: some("avatar"),
        detail_name_rule: some("name"),
        detail_badge_rule: some("badges"),
        detail_content_rule: some("content"),
        post_time_rule: some("time"),
        review_quote_url: some("http://a/r/{reviewId}?page={page}"),
        reply_list_rule: some("list"),
        reply_id_rule: some("id"),
        reply_name_rule: some("name"),
        reply_content_rule: some("content"),
        enabled: true,
        ..Default::default()
    }
}

fn source(rule: ReviewRule) -> BookSource {
    BookSource {
        book_source_url: "http://s".to_string(),
        header: some("H"),
        proxy_url: some("P"),
        rule_review: Some(rule),
    }
}

fn book() -> Book {
    Book { book_url: "http://b".to_string(), name: "B".to_string(), author: "W".to_string() }
}

fn chapter() -> BookChapter {
    BookChapter { url: "http://c".to_string(), title: "C".to_string(), index: 5 }
}

fn summary(source: &BookSource, host: &mut Host) -> Result<SummaryResult, ReviewError> {
    let (book, chapter) = (book(), chapter());
    let mut run = get_summary(source, &book, &chapter);
    while let Some(question) = run.question() {
        run = run.answer(host.reply(question));
    }
    run.finish()
}

fn detail(
    source: &BookSource,
    page: u32,
    cache: &mut NextUrls,
    host: &mut Host,
) -> Result<DetailPage, ReviewError> {
    let (book, chapter) = (book(), chapter());
    let mut run = get_detail("ns", source, &book, &chapter, 3, "key", page, cache)?;
    loop {
        assert!(run.counts());
        match run.question() {
            Some(question) => run = run.answer(host.reply(question)),
            None => break,
        }
    }
    run.finish(cache)
}

fn replies(source: &BookSource, page: u32, host: &mut Host) -> Result<DetailPage, ReviewError> {
    let (book, chapter) = (book(), chapter());
    let mut run = get_replies(source, &book, &chapter, 3, "key", "rid", page)?;
    while let Some(question) = run.question() {
        run = run.answer(host.reply(question));
    }
    run.finish()
}

#[test]
fn a_summary_counts_the_reviews_of_paragraphs() {
    let body = "index=4;count=2;data=anchor/index=x;count=3/index=0;count=9/index=7;count=0\
                /index=8;count=-1/count=5/index=2.9;count=1.5/index=4;count=6";
    let mut host = Host::new(body);
    let result = summary(&source(rule()), &mut host).unwrap();
    let mut counts: Vec<(i64, i64)> = result.counts.iter().map(|(k, v)| (*k, *v)).collect();
    counts.sort();
    let mut keys: Vec<(i64, String)> = result.keys.iter().map(|(k, v)| (*k, v.clone())).collect();
    keys.sort();
    // The second entry has no number and counts by its position, the last replaces the first.
    // "2.9" is cut to 2, and replaces the second entry.
    assert_eq!(counts, [(2, 1), (4, 6), (6, 5)]);
    let keys: Vec<(i64, &str)> = keys.iter().map(|(k, v)| (*k, v.as_str())).collect();
    assert_eq!(keys, [(2, "2.9"), (4, "4"), (6, "6")]);
    assert!(host.asked("paraIndex\", \"-1\""));
}

#[test]
fn a_summary_takes_the_data_that_the_rule_finds() {
    let mut host = Host::new("index=4;count=2;data= anchor ");
    let result = summary(&source(rule()), &mut host).unwrap();
    assert_eq!(result.counts.get(&4), Some(&2));
    assert_eq!(result.keys.get(&4).map(|k| k.as_str()), Some("anchor"));
}

#[test]
fn without_rules_a_summary_is_empty() {
    let mut without = source(rule());
    without.rule_review = None;
    let mut sources = vec![without];
    for i in 0..5 {
        let mut r = rule();
        match i {
            0 => r.enabled = false,
            1 => r.review_summary_url = some(" "),
            2 => r.summary_list_rule = None,
            3 => r.summary_paragraph_index_rule = None,
            _ => r.summary_count_rule = some(""),
        }
        sources.push(source(r));
    }
    for s in &sources {
        let mut host = Host::new("index=1;count=1");
        let result = summary(s, &mut host).unwrap();
        assert!(result.counts.is_empty() && result.keys.is_empty());
        assert!(host.log.is_empty());
    }
}

#[test]
fn reviews_are_read_in_their_order() {
    let said = "{\"text\":\"t\",\"img\":\"i\",\"audio\":\"s\",\"time\":\"now\",\
                \"likeCount\":2.5,\"replyCount\":\"4\",\"replyToName\":\"Bo\"}";
    let first = "id=1;avatar=p;name=Ann;badges=x|y;content=hello;time=noon";
    let mut host = Host::new(&format!("{}/name= ;content= /id=2;content={}", first, said));
    let page = detail(&source(rule()), 1, &mut NextUrls::new(), &mut host).unwrap();
    assert_eq!(page.items.len(), 2);
    let first = &page.items[0];
    assert_eq!(first.id.as_deref(), Some("1"));
    assert_eq!(first.avatar.as_deref(), Some("http://a.test/final^p"));
    assert_eq!(first.name.as_deref(), Some("Ann"));
    assert_eq!(first.badges, ["x", "y"]);
    assert_eq!(first.content.as_deref(), Some("hello"));
    assert_eq!(first.time.as_deref(), Some("noon"));
    assert_eq!((first.like_count, first.reply_count), (None, None));
    let second = &page.items[1];
    assert_eq!(second.name, None);
    assert_eq!(second.content.as_deref(), Some("t"));
    assert_eq!(second.image_url.as_deref(), Some("http://a.test/final^i"));
    assert_eq!(second.audio_url.as_deref(), Some("http://a.test/final^s"));
    assert_eq!(second.time.as_deref(), Some("now"));
    assert_eq!((second.like_count, second.reply_count), (Some(2), Some(4)));
    assert_eq!(second.reply_to_name.as_deref(), Some("Bo"));
    assert!(second.replies.is_empty());
    assert_eq!(page.next_page_url, None);
    assert!(!page.has_more);
}

#[test]
fn unknown_objects_are_shown_as_they_are() {
    let mut host = Host::new("content={\"other\":1}");
    let page = detail(&source(rule()), 1, &mut NextUrls::new(), &mut host).unwrap();
    assert_eq!(page.items[0].content.as_deref(), Some("{\"other\":1}"));
}

#[test]
fn replies_come_with_reviews_where_there_is_no_page_for_them() {
    let mut r = rule();
    r.review_quote_url = some("  ");
    r.reply_list_rule = some("nested");
    let body = "name=Ann;content=c;\
                replies=name~Bo!content~{\"replyCount\":3,\"text\":\"r\"}+content~2nd+x~y";
    let mut host = Host::new(body);
    let page = detail(&source(r), 1, &mut NextUrls::new(), &mut host).unwrap();
    let nested = &page.items[0].replies;
    assert_eq!(nested.len(), 2);
    assert_eq!(nested[0].name.as_deref(), Some("Bo"));
    assert_eq!(nested[0].content.as_deref(), Some("r"));
    assert_eq!(nested[0].reply_count, None);
    assert_eq!(nested[1].content.as_deref(), Some("2nd"));
    assert!(nested.iter().all(|n| n.replies.is_empty()));
    assert!(host.asked("ForkVars { level: 3 }"));
}

#[test]
fn the_next_page_is_asked_for_at_the_address_that_was_found() {
    let s = source(rule());
    let mut cache = NextUrls::new();
    let mut host = Host::new("content=a;next= more ");
    let page = detail(&s, 0, &mut cache, &mut host).unwrap();
    assert_eq!(page.next_page_url.as_deref(), Some("http://a.test/final^more"));
    assert!(page.has_more);
    assert_eq!(cache.len(), 1);
    assert!(host.asked("SplitSuffix(\"http://a/d?page=1\")"));

    let mut host = Host::new("content=a");
    detail(&s, 2, &mut cache, &mut host).unwrap();
    assert!(host.asked("SplitSuffix(\"http://a.test/final^more\")"));

    let mut host = Host::new("content=a");
    detail(&s, 3, &mut cache, &mut host).unwrap();
    assert!(host.asked("SplitSuffix(\"http://a/d?page=3\")"));

    let mut host = Host::new("content=a");
    detail(&s, 1, &mut cache, &mut host).unwrap();
    assert!(host.asked("SplitSuffix(\"http://a/d?page=1\")"));
}

#[test]
fn the_last_page_number_is_read_where_no_next_page_is_looked_for() {
    let mut r = rule();
    r.review_detail_next_page_url = None;
    let mut host = Host::new("content=a;next=more");
    let page = detail(&source(r), u32::MAX, &mut NextUrls::new(), &mut host).unwrap();
    assert!(!page.has_more);
    assert!(host.asked("page=4294967295"));
}

#[test]
fn an_empty_list_is_an_empty_page() {
    let mut r = rule();
    r.detail_list_rule = some("none");
    let mut cache = NextUrls::new();
    let mut host = Host::new("next=more");
    let page = detail(&source(r), 1, &mut cache, &mut host).unwrap();
    assert!(page.items.is_empty());
    assert_eq!(page.next_page_url, None);
    assert!(!page.has_more);
    assert_eq!(cache.len(), 0);
}

#[test]
fn reviews_are_refused_without_their_rules() {
    let mut cache = NextUrls::new();
    let mut host = Host::new("content=a");
    let mut s = source(rule());
    s.rule_review = None;
    assert_eq!(detail(&s, 1, &mut cache, &mut host).unwrap_err(), ReviewError::RuleMissing);
    let mut refused = |change: fn(&mut ReviewRule)| {
        let mut r = rule();
        change(&mut r);
        detail(&source(r), 1, &mut NextUrls::new(), &mut host).unwrap_err()
    };
    assert_eq!(refused(|r| r.enabled = false), ReviewError::RuleDisabled);
    assert_eq!(refused(|r| r.detail_list_rule = some(" ")), ReviewError::DetailListRuleMissing);
    assert_eq!(refused(|r| r.detail_content_rule = None), ReviewError::DetailContentRuleMissing);
    assert_eq!(refused(|r| r.review_detail_url = None), ReviewError::DetailUrlMissing);
    assert!(host.log.is_empty());
}

#[test]
fn replies_are_refused_without_their_rules() {
    let mut host = Host::new("content=a");
    let mut s = source(rule());
    s.rule_review = None;
    assert_eq!(replies(&s, 1, &mut host).unwrap_err(), ReviewError::RuleMissing);
    let mut refused = |change: fn(&mut ReviewRule)| {
        let mut r = rule();
        change(&mut r);
        replies(&source(r), 1, &mut host).unwrap_err()
    };
    assert_eq!(refused(|r| r.enabled = false), ReviewError::RuleDisabled);
    assert_eq!(refused(|r| r.review_quote_url = some(" ")), ReviewError::ReplyUrlMissing);
    assert_eq!(refused(|r| r.reply_list_rule = None), ReviewError::ReplyListRuleMissing);
    assert_eq!(refused(|r| r.reply_content_rule = None), ReviewError::ReplyContentRuleMissing);
    assert!(host.log.is_empty());
}

#[test]
fn a_page_that_cannot_be_read_is_a_failure() {
    let mut cache = NextUrls::new();
    let mut host = Host::new("x=1/y=2");
    let error = detail(&source(rule()), 1, &mut cache, &mut host).unwrap_err();
    assert_eq!(error, ReviewError::DetailUnreadable);
    let mut host = Host::new("x=1/y=2");
    let error = replies(&source(rule()), 1, &mut host).unwrap_err();
    assert_eq!(error, ReviewError::ReplyUnreadable);
}

#[test]
fn an_empty_address_is_a_failure() {
    let mut r = rule();
    r.review_summary_url = some(" {paraData} ");
    let error = summary(&source(r), &mut Host::new("")).unwrap_err();
    // The rule is not blank, but nothing is left of it for a whole chapter.
    assert_eq!(error, ReviewError::UrlEmpty);
}

#[test]
fn a_failed_call_ends_the_run() {
    let mut host = Host::new("content=a");
    host.fail = Some("request");
    let error = detail(&source(rule()), 1, &mut NextUrls::new(), &mut host).unwrap_err();
    assert_eq!(error, ReviewError::CallFailed);
    assert!(host.log.last().unwrap().starts_with("Get("));

    let mut r = rule();
    r.review_quote_url = some("@js:f()");
    let mut host = Host::new("content=a");
    host.fail = Some("script");
    assert_eq!(replies(&source(r), 1, &mut host).unwrap_err(), ReviewError::CallFailed);
    assert_eq!(host.log.len(), 3);

    let mut host = Host::new("index=1;count=1");
    host.fail = Some("request");
    assert_eq!(summary(&source(rule()), &mut host).unwrap_err(), ReviewError::CallFailed);
}

#[test]
fn an_answer_that_was_not_asked_for_changes_nothing() {
    let s = source(rule());
    let (book, chapter) = (book(), chapter());
    let mut run = get_replies(&s, &book, &chapter, 3, "key", "rid", 1).unwrap();
    let mut host = Host::new("content=a");
    while let Some(question) = run.question() {
        let asked = format!("{:?}", question);
        run = run.answer(Answer::Number(Some(1)));
        assert_eq!(format!("{:?}", run.question().unwrap()), asked);
        run = run.answer(host.reply(question));
    }
    assert_eq!(run.finish().unwrap().items.len(), 1);
}

#[test]
fn replies_tell_whether_there_are_more() {
    let s = source(rule());
    let with = |url: &str, body: &str, page: u32| {
        let mut host = Host::new(body);
        host.url = url.to_string();
        let detail = replies(&s, page, &mut host).unwrap();
        assert_eq!(detail.next_page_url, None);
        detail.has_more
    };
    assert!(with("http://a.test/?limit=1", "content=a", 1));
    assert!(!with("http://a.test/?limit=2", "content=a", 1));
    assert!(with("http://a.test/?limit=2", "content=a/content=b", 1));
    assert!(!with("http://a.test/", "content=a/content=b", 1));
}

#[test]
fn a_reply_has_neither_replies_nor_a_count_of_them() {
    let body = "name=Ann;content={\"text\":\"t\",\"replyCount\":4,\"likeCount\":1}";
    let mut host = Host::new(body);
    let page = replies(&source(rule()), 2, &mut host).unwrap();
    assert_eq!(page.items[0].reply_count, None);
    assert_eq!(page.items[0].like_count, Some(1));
    assert!(page.items[0].replies.is_empty());
    assert!(host.asked("http://a/r/rid?page=2"));
}

#[test]
fn the_total_decides_where_the_page_tells_it() {
    // The list rule finds the whole body, which is an object, as one reply.
    let mut r = rule();
    r.reply_name_rule = some("n");
    let mut host = Host::new("{\"data\":{\"total\":3},\"x\":\";n=Ann;\"}");
    host.url = "http://a.test/?limit=2".to_string();
    assert!(replies(&source(r.clone()), 1, &mut host).unwrap().has_more);
    assert!(!replies(&source(r), 2, &mut host).unwrap().has_more);
}

#[test]
fn a_request_has_the_options_of_its_address() {
    let mut host = Host::new("content=a");
    host.suffix = UrlSuffix {
        headers: Some(vec![("UA".to_string(), "y".to_string())]),
        body: some("p={{page}}&r={reviewId}"),
        method: some("post"),
        charset: some("gbk"),
        retry: 2,
        body_js: some("body()"),
        js: some("last()"),
    };
    let s = source(rule());
    let page = replies(&s, 7, &mut host);
    // The script on the response leaves nothing that a rule finds.
    assert_eq!(page.unwrap_err(), ReviewError::ReplyUnreadable);
    let post = host.log.iter().find(|q| q.starts_with("Post(")).unwrap();
    for part in [
        "url: \"http://c^last()<http://a/r/rid?page=7>\"",
        "headers: [(\"UA\", \"y\")]",
        "timeout_secs: 15",
        "body: Some(\"p=7&r=rid\")",
        "charset: Some(\"gbk\")",
        "proxy: Some(\"P\")",
        "retry: 2",
    ] {
        assert!(post.contains(part), "{} in {}", part, post);
    }
    assert!(host.asked("text: \"body()<content=a>\""));
    assert!(host.asked("SetHeaders(Some(\"H\"))"));
}

#[test]
fn a_request_without_options_has_no_body() {
    let mut host = Host::new("content=a");
    host.suffix.body = some("ignored");
    replies(&source(rule()), 1, &mut host).unwrap();
    let get = host.log.iter().find(|q| q.starts_with("Get(")).unwrap();
    assert!(get.contains("body: None"));
    assert!(get.contains("headers: [(\"UA\", \"x\")]"));
    assert!(get.contains("retry: 0"));
}

#[test]
fn scripts_see_the_place_they_run_in() {
    let mut r = rule();
    r.review_quote_url = some("http://a <js>f()</js>?x=@result");
    let mut host = Host::new("content=a");
    replies(&source(r), 4, &mut host).unwrap();
    let eval = host.log.iter().find(|q| q.starts_with("EvalScript")).unwrap();
    for part in [
        "script: \"f()\"",
        "(\"result\", \"http://a\")",
        "(\"src\", \"http://a\")",
        "(\"baseUrl\", \"http://c\")",
        "(\"page\", \"4\")",
        "(\"paraIndex\", \"3\")",
        "(\"paraData\", \"key\")",
        "(\"key\", \"key\")",
        "(\"reviewId\", \"rid\")",
    ] {
        assert!(eval.contains(part), "{} in {}", part, eval);
    }
    assert!(host.asked("SplitSuffix(\"?x=f()<http://a>\")"));
}

#[test]
fn a_run_asks_in_order() {
    let mut host = Host::new("content=a");
    replies(&source(rule()), 1, &mut host).unwrap();
    let kinds: Vec<&str> = host
        .log
        .iter()
        .map(|q| q.split(|c| c == '(' || c == ' ').next().unwrap())
        .collect();
    assert_eq!(
        kinds,
        [
            "OpenBridge", "SetHeaders", "SplitSuffix", "Resolve", "BridgeHeaders", "AcquireRate",
            "Get", "OpenBridge", "AssignVars", "Elements", "ForkVars", "Field", "Field", "Field",
            "Field",
        ],
    );
}

#[test]
fn a_run_gives_what_its_parts_give_on_all_the_answers() {
    let s = source(rule());
    let (book, chapter) = (book(), chapter());
    let mut run = get_replies(&s, &book, &chapter, 3, "key", "rid", 1).unwrap();
    let mut host = Host::new("content=a/x=1/name=Bo;content={\"likeCount\":\"1.5\"}");
    let mut given = Vec::new();
    while let Some(question) = run.question() {
        let answer = host.reply(question);
        given.push(answer.clone());
        run = run.answer(answer);
    }
    let detail = run.finish().unwrap();

    let r = s.rule_review.as_ref().unwrap();
    let place = Place {
        book: &book,
        chapter: &chapter,
        para_index: 3,
        para_data: "key",
        review_id: Some("rid"),
        page: 1,
    };
    let url_rule = r.review_quote_url.as_deref().unwrap();
    let (page, pos) = match open_page(&s, &place, url_rule, "list", &given, 0) {
        Step::Done(page, pos) => (page, pos),
        other => panic!("{:?}", other),
    };
    let reading = Reading {
        rule: r,
        base_url: &page.url,
        role: Role::Reply,
        content_rule: "content",
    };
    let (items, pos) = match parse_items(&reading, &page.texts, &given, pos) {
        Step::Done(items, pos) => (items, pos),
        other => panic!("{:?}", other),
    };
    assert_eq!(pos, given.len());
    assert_eq!(items.len(), 2);
    assert_eq!(format!("{:?}", items), format!("{:?}", detail.items));
}

#[test]
fn reviews_are_refused_before_pages_are_counted() {
    let mut r = rule();
    r.enabled = false;
    let mut host = Host::new("");
    let error = detail(&source(r), u32::MAX, &mut NextUrls::new(), &mut host).unwrap_err();
    assert_eq!(error, ReviewError::RuleDisabled);
}

#[test]
fn the_last_page_number_is_asked_for_at_the_address_that_was_found() {
    let s = source(rule());
    let mut cache = NextUrls::new();
    let page = detail(&s, u32::MAX - 1, &mut cache, &mut Host::new("content=a;next=more")).unwrap();
    assert_eq!(page.next_page_url.as_deref(), Some("http://a.test/final^more"));

    let (book, chapter) = (book(), chapter());
    let mut run = get_detail("ns", &s, &book, &chapter, 3, "key", u32::MAX, &cache).unwrap();
    let mut host = Host::new("content=a;next=more");
    while run.counts() {
        match run.question() {
            Some(question) => run = run.answer(host.reply(question)),
            None => unreachable!(),
        }
    }
    // The page is read, and the one behind it cannot be counted.
    assert!(host.asked("SplitSuffix(\"http://a.test/final^more\")"));
    assert!(host.asked("(\"page\", \"4294967295\")"));
    assert!(host.log.last().unwrap().contains("rule: \"time\""));
}

#[test]
fn the_last_page_number_is_a_failure_where_nothing_can_be_read() {
    let mut host = Host::new("x=1");
    let error = detail(&source(rule()), u32::MAX, &mut NextUrls::new(), &mut host).unwrap_err();
    assert_eq!(error, ReviewError::DetailUnreadable);
}

#[test]
fn the_texts_of_an_item_are_never_blank() {
    let said = "{\"text\":1.50,\"time\":1e30,\"replyToName\":false}";
    let body = format!("content={}/name=n;content={{\"text\":\" \",\"likeCount\":1}}", said);
    let page = replies(&source(rule()), 1, &mut Host::new(&body)).unwrap();
    assert_eq!(page.items[0].content.as_deref(), Some("1.5"));
    assert_eq!(page.items[0].time.as_deref(), Some("1e+30"));
    assert_eq!(page.items[0].reply_to_name.as_deref(), Some("false"));
    assert_eq!(page.items[1].content, None);
    assert_eq!(page.items[1].like_count, Some(1));
}

#[test]
fn page_zero_is_page_one() {
    let s = source(rule());
    for filled in [0, 3, 512] {
        let results: Vec<(String, Vec<String>, Vec<Option<String>>)> = [0, 1]
            .into_iter()
            .map(|page| {
                let mut cache = NextUrls::new();
                for i in 0..filled {
                    put_next_url(&mut cache, format!("k{}", i), format!("u{}", i));
                }
                let mut host = Host::new("content=a;next=more");
                let detail = detail(&s, page, &mut cache, &mut host).unwrap();
                assert!(host.asked("SplitSuffix(\"http://a/d?page=1\")"));
                let key = "ns\0http://s\0http://b\0http://c\03\0key\02".to_string();
                let keys = (0..filled).map(|i| format!("k{}", i)).chain([key]);
                let left = keys.map(|k| get_next_url(&cache, &k)).collect();
                (format!("{:?}", detail), host.log, left)
            })
            .collect();
        assert_eq!(results[0], results[1]);
        assert_eq!(results[0].2.last().unwrap().as_deref(), Some("http://a.test/final^more"));
    }
    let ask = |page: u32| {
        let mut host = Host::new("content=a");
        (format!("{:?}", replies(&s, page, &mut host).unwrap()), host.log)
    };
    assert_eq!(ask(0), ask(1));
    assert_ne!(ask(1), ask(2));
}
