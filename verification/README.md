# para_review

Paragraph reviews for a book reader. A book source says by rules how many reviews the paragraphs of
a chapter have, where the reviews of a paragraph and the replies to a review are asked for, and how
what comes back is read. This library carries the rules out. It only reads: nothing is liked, posted
or deleted.

The library is verified with Verus. What `serde_json` and `url` return is trusted: the contracts of
the four functions that call them, in `src/json.rs` and `src/paging.rs`, are not proved.

The library sends no request and runs no script itself. `get_summary`, `get_detail` and
`get_replies` start a run; a run puts its questions one at a time, goes on with the answers, and
ends with a result or a failure.

- `src/dialog.rs`: questions, answers, and how a part of a run goes on with them.
- `src/url_rule.rs`, `src/fetch.rs`: from an address rule to a response.
- `src/json.rs`, `src/content.rs`, `src/item.rs`: what is read of a review.
- `src/page_run.rs`, `src/detail.rs`, `src/replies.rs`, `src/summary.rs`: the runs.
- `src/next_urls.rs`, `src/paging.rs`: the addresses of next pages, and whether there are more.
- `src/steady.rs`, `src/whole.rs`, `src/laws.rs`, `src/badge_laws.rs`: what holds of the
  runs and of the library.
- `app/`: the runs, driven by the script engine, the rule engine and the network of a server.
