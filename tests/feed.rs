use git_rss::channel::{
    build_channel, check_base_url, count_digits, integer_entries, minutes_text,
    sort_items, ttl_text, ChannelSettings, FeedChannel, TtlSetting,
};
use git_rss::commit::{
    change_kind, commit_date, commit_items, commit_qualifies, item_title,
    ChangeDelta, ChangeKind, CommitInfo, DeltaStatus, FeedError, FeedItem, ItemSettings,
    TimedItem,
};
use git_rss::ignore::{compile_ignore_list, is_ignored, is_repo_relative};
use git_rss::order::stable_order;
use git_rss::paths::{starts_with, url_path};
use git_rss::text::{author_text, decimal_text, fill_title, int_text, opts_out};

fn commit(parents: usize, message: &str, seconds: i64) -> CommitInfo {
    CommitInfo {
        parent_count: parents,
        message: Some(message.to_string()),
        author_name: Some("Ann".to_string()),
        author_email: Some("ann@example.org".to_string()),
        seconds,
        offset_minutes: 0,
    }
}

fn added(path: &str) -> ChangeDelta {
    ChangeDelta { status: DeltaStatus::Added, old_path: None, new_path: Some(path.to_string()) }
}

fn settings(prefix: &str) -> ItemSettings {
    ItemSettings {
        strip_prefix: prefix.to_string(),
        title_new: Some("New page %p".to_string()),
        title_removed: Some("Removed %p".to_string()),
        title_modified: Some("Changed %p".to_string()),
    }
}

fn item(time: i64, date: &str, link: &str) -> TimedItem {
    TimedItem {
        time,
        item: FeedItem {
            author: "a (b)".to_string(),
            pub_date: date.to_string(),
            title: None,
            link: link.to_string(),
        },
    }
}

fn channel_settings(ttl: TtlSetting) -> ChannelSettings {
    ChannelSettings {
        title: "T".to_string(),
        link: "https://x/".to_string(),
        description: "D".to_string(),
        language: Some("en".to_string()),
        copyright: None,
        managing_editor: None,
        webmaster: None,
        generator: None,
        ttl,
        skip_hours: vec![Some(1), None, Some(23)],
        skip_days: vec![],
    }
}

fn links(ch: &FeedChannel) -> Vec<String> {
    ch.items.iter().map(|i| i.link.clone()).collect()
}

#[test]
fn url_path_strips_prefix_and_rewrites_md() {
    assert_eq!(url_path("site/a/b.md", "site/"), "a/b.html");
    assert_eq!(url_path("site/img.png", "site/"), "img.png");
    assert_eq!(url_path("other/x.md", "site/"), "other/x.html");
    assert_eq!(url_path("readme.mdx", ""), "readme.mdx");
}

#[test]
fn url_path_keeps_the_dot_only() {
    assert_eq!(url_path("pagemd", ""), "pagemd");
    assert_eq!(url_path(".md", ""), ".html");
    assert_eq!(url_path("a.md", "a.md"), "");
}

#[test]
fn prefix_then_rest_is_reduced_to_rest() {
    assert_eq!(url_path("pre/fix/X.txt", "pre/fix/"), "X.txt");
    assert!(starts_with("pre/fix", "pre/"));
    assert!(!starts_with("pr", "pre"));
}

#[test]
fn marker_must_fill_a_line() {
    assert!(opts_out("fix bug\nno-rss\n"));
    assert!(opts_out("no-rss"));
    assert!(opts_out("subject\n\nno-rss"));
    assert!(!opts_out("fix bug\nno-rssx\n"));
    assert!(!opts_out("fix bug\nsay no-rss\n"));
    assert!(!opts_out(""));
}

#[test]
fn template_fills_every_token() {
    assert_eq!(fill_title("New %p and %p", "a.html"), "New a.html and a.html");
    assert_eq!(fill_title("100% pure", "x"), "100% pure");
    assert_eq!(fill_title("%%pp", "x"), "%xp");
}

#[test]
fn numbers_in_decimal() {
    assert_eq!(decimal_text(0), "0");
    assert_eq!(decimal_text(1234567890), "1234567890");
    assert_eq!(int_text(-45), "-45");
    assert_eq!(int_text(i64::MIN), "-9223372036854775808");
    assert_eq!(minutes_text(7265), "121");
}

#[test]
fn author_needs_both_parts() {
    assert_eq!(author_text(Some("a@b"), Some("Ann")), Some("a@b (Ann)".to_string()));
    assert_eq!(author_text(None, Some("Ann")), None);
    assert_eq!(author_text(Some("a@b"), None), None);
}

#[test]
fn stable_order_keeps_ties() {
    assert_eq!(stable_order(&vec![5, 3, 5, 1]), vec![3, 1, 0, 2]);
    assert_eq!(stable_order(&vec![]), Vec::<usize>::new());
}

#[test]
fn ttl_from_duration_text() {
    assert_eq!(ttl_text(&TtlSetting::Text("2h".to_string())), Ok(Some("120".to_string())));
    assert_eq!(ttl_text(&TtlSetting::Text("90s".to_string())), Ok(Some("1".to_string())));
    assert_eq!(ttl_text(&TtlSetting::Minutes(45)), Ok(Some("45".to_string())));
    assert_eq!(ttl_text(&TtlSetting::Absent), Ok(None));
}

#[test]
fn ttl_errors() {
    assert_eq!(ttl_text(&TtlSetting::Text("soon".to_string())), Err(FeedError::InvalidDuration));
    assert_eq!(count_digits("12a3"), 3);
    assert_eq!(ttl_text(&TtlSetting::Text("12345678901s".to_string())), Ok(Some("205761315".to_string())));
    assert_eq!(ttl_text(&TtlSetting::Text("123456789012s".to_string())), Err(FeedError::InvalidDuration));
    assert_eq!(
        ttl_text(&TtlSetting::Text("18446744073709551615s 500ms 500ms".to_string())),
        Err(FeedError::InvalidDuration)
    );
    assert_eq!(ttl_text(&TtlSetting::Invalid), Err(FeedError::InvalidTtl));
}

#[test]
fn skip_lists_drop_non_integers() {
    assert_eq!(integer_entries(&vec![Some(0), None, Some(6)]), vec!["0", "6"]);
}

#[test]
fn statuses_and_titles() {
    assert_eq!(change_kind(DeltaStatus::Deleted), Some(ChangeKind::Removed));
    assert_eq!(change_kind(DeltaStatus::Other), None);
    let s = settings("docs/");
    assert_eq!(item_title(&s, ChangeKind::Modified, "docs/a.md"), Some("Changed a.html".to_string()));
    let none = ItemSettings { title_new: None, ..settings("") };
    assert_eq!(item_title(&none, ChangeKind::New, "a.md"), None);
}

#[test]
fn dates_at_author_offset() {
    let mut c = commit(0, "x", 0);
    assert_eq!(commit_date(&c), Ok("Thu, 1 Jan 1970 00:00:00 +0000".to_string()));
    c.offset_minutes = 120;
    assert_eq!(commit_date(&c), Ok("Thu, 1 Jan 1970 02:00:00 +0200".to_string()));
    c.offset_minutes = 1440;
    assert_eq!(commit_date(&c), Err(FeedError::InvalidTimestamp));
    let mut c = commit(0, "x", 1_000_000_000);
    c.offset_minutes = 330;
    assert_eq!(commit_date(&c), Ok("Sun, 9 Sep 2001 07:16:40 +0530".to_string()));
    c.seconds = 0;
    c.offset_minutes = -60;
    assert_eq!(commit_date(&c), Ok("Wed, 31 Dec 1969 23:00:00 -0100".to_string()));
}

#[test]
fn dates_at_the_ends_of_the_years() {
    let mut c = commit(0, "x", -62167219200);
    assert_eq!(commit_date(&c), Ok("Sat, 1 Jan 0000 00:00:00 +0000".to_string()));
    c.seconds = -62167219201;
    assert_eq!(commit_date(&c), Err(FeedError::InvalidTimestamp));
    c.offset_minutes = 1;
    assert_eq!(commit_date(&c), Ok("Sat, 1 Jan 0000 00:00:59 +0001".to_string()));
    let mut c = commit(0, "x", 253402300799);
    assert_eq!(commit_date(&c), Ok("Fri, 31 Dec 9999 23:59:59 +0000".to_string()));
    c.offset_minutes = 1;
    assert_eq!(commit_date(&c), Err(FeedError::InvalidTimestamp));
}

#[test]
fn ignore_list_answers() {
    let list = compile_ignore_list(vec!["secrets/*".to_string()]).unwrap();
    assert_eq!(is_ignored(&list, "secrets/key.txt"), Ok(true));
    assert_eq!(is_ignored(&list, "public/key.txt"), Ok(false));
    assert_eq!(is_ignored(&list, "/secrets/key.txt"), Err(FeedError::InvalidPath));
    assert!(compile_ignore_list(vec!["a\0b".to_string()]).is_err());
}

#[test]
fn repo_relative_paths() {
    assert!(is_repo_relative("a/b"));
    assert!(is_repo_relative(".hidden"));
    assert!(!is_repo_relative("/abs"));
    assert!(!is_repo_relative("./a"));
    assert!(!is_repo_relative("../a"));
    assert!(!is_repo_relative(""));
}

#[test]
fn root_commit_adding_markdown() {
    let base = "https://x/y/";
    let c = commit(0, "add page\n", 60);
    let items = commit_items(&c, &vec![added("a.md")], &settings(""), &None, base).unwrap();
    assert_eq!(items.len(), 1);
    assert_eq!(items[0].item.link, "https://x/y/a.html");
    assert_eq!(items[0].item.title, Some("New page a.html".to_string()));
    assert_eq!(items[0].item.author, "ann@example.org (Ann)");
    assert_eq!(items[0].time, 60);
}

#[test]
fn merge_commit_yields_nothing() {
    let base = "https://x/y/";
    let c = commit(2, "merge\n", 60);
    assert!(!commit_qualifies(&c));
    let items = commit_items(&c, &vec![added("a.md")], &settings(""), &None, base).unwrap();
    assert!(items.is_empty());
}

#[test]
fn opted_out_commit_yields_nothing() {
    let base = "https://x/y/";
    let c = commit(1, "fix bug\nno-rss\n", 60);
    let items = commit_items(&c, &vec![added("a.md")], &settings(""), &None, base).unwrap();
    assert!(items.is_empty());
}

#[test]
fn ignored_path_is_dropped() {
    let base = "https://x/y/";
    let ignore = compile_ignore_list(vec!["secrets/*".to_string()]).unwrap();
    let c = commit(1, "update\n", 60);
    let deltas = vec![added("secrets/key.txt"), added("pub.md")];
    let items = commit_items(&c, &deltas, &settings(""), &Some(ignore), base).unwrap();
    assert_eq!(items.len(), 1);
    assert_eq!(items[0].item.link, "https://x/y/pub.html");
}

#[test]
fn removed_and_other_changes() {
    let base = "https://x/";
    let c = commit(1, "tidy\n", 5);
    let deltas = vec![
        ChangeDelta { status: DeltaStatus::Other, old_path: Some("o".to_string()), new_path: Some("n".to_string()) },
        ChangeDelta { status: DeltaStatus::Deleted, old_path: Some("web/old.md".to_string()), new_path: None },
        ChangeDelta { status: DeltaStatus::Modified, old_path: Some("m.txt".to_string()), new_path: Some("m.txt".to_string()) },
    ];
    let items = commit_items(&c, &deltas, &settings("web/"), &None, base).unwrap();
    assert_eq!(items.len(), 2);
    assert_eq!(items[0].item.title, Some("Removed old.html".to_string()));
    assert_eq!(items[0].item.link, "https://x/old.html");
    assert_eq!(items[1].item.title, Some("Changed m.txt".to_string()));
}

#[test]
fn base_without_trailing_slash_drops_last_segment() {
    let base = "https://x/y";
    let c = commit(0, "add\n", 1);
    let items = commit_items(&c, &vec![added("a.md")], &settings(""), &None, base).unwrap();
    assert_eq!(items[0].item.link, "https://x/a.html");
}

#[test]
fn bad_base_url_fails_the_link() {
    let c = commit(0, "add\n", 1);
    let r = commit_items(&c, &vec![added("a.md")], &settings(""), &None, "no base");
    assert_eq!(r.err(), Some(FeedError::InvalidLink));
}

#[test]
fn commit_errors() {
    let base = "https://x/";
    let mut c = commit(0, "add\n", 1);
    c.author_email = None;
    assert_eq!(commit_items(&c, &vec![], &settings(""), &None, base).err(), Some(FeedError::MissingAuthor));
    let mut c = commit(0, "add\n", 1);
    c.offset_minutes = -2000;
    assert_eq!(commit_items(&c, &vec![], &settings(""), &None, base).err(), Some(FeedError::InvalidTimestamp));
    let c = commit(0, "add\n", 1);
    let d = ChangeDelta { status: DeltaStatus::Added, old_path: None, new_path: None };
    assert_eq!(commit_items(&c, &vec![d], &settings(""), &None, base).err(), Some(FeedError::MissingPath));
    let ignore = compile_ignore_list(vec!["x".to_string()]).unwrap();
    assert_eq!(commit_items(&c, &vec![added("/abs")], &settings(""), &Some(ignore), base).err(), Some(FeedError::InvalidPath));
    assert_eq!(check_base_url("not a url"), Err(FeedError::InvalidBaseUrl));
    assert_eq!(check_base_url("https://x/"), Ok(()));
}

#[test]
fn items_sorted_by_time_stably() {
    let items = vec![item(5, "d5", "a"), item(3, "d3", "b"), item(5, "d5", "c"), item(1, "d1", "d")];
    let sorted: Vec<String> = sort_items(&items).into_iter().map(|i| i.link).collect();
    assert_eq!(sorted, vec!["d", "b", "a", "c"]);
}

#[test]
fn channel_dates_from_first_and_last() {
    let items = vec![item(5, "d5", "a"), item(1, "d1", "b"), item(9, "d9", "c")];
    let ch = build_channel(channel_settings(TtlSetting::Text("2h".to_string())), items).unwrap();
    assert_eq!(links(&ch), vec!["b", "a", "c"]);
    assert_eq!(ch.pub_date, Some("d1".to_string()));
    assert_eq!(ch.last_build_date, Some("d9".to_string()));
    assert_eq!(ch.ttl, Some("120".to_string()));
    assert_eq!(ch.skip_hours, vec!["1", "23"]);
    assert_eq!(ch.language, Some("en".to_string()));
}

#[test]
fn empty_channel_keeps_required_fields() {
    let ch = build_channel(channel_settings(TtlSetting::Absent), vec![]).unwrap();
    assert!(ch.items.is_empty());
    assert_eq!(ch.pub_date, None);
    assert_eq!(ch.last_build_date, None);
    assert_eq!(ch.title, "T");
    assert_eq!(ch.link, "https://x/");
    assert_eq!(ch.description, "D");
    assert_eq!(ch.ttl, None);
}

#[test]
fn channel_fails_on_bad_ttl() {
    let r = build_channel(channel_settings(TtlSetting::Invalid), vec![item(1, "d", "l")]);
    assert_eq!(r.err(), Some(FeedError::InvalidTtl));
}

#[test]
fn same_input_same_channel() {
    let make = || vec![item(2, "d2", "x"), item(2, "d2", "y"), item(1, "d1", "z")];
    let a = build_channel(channel_settings(TtlSetting::Minutes(10)), make()).unwrap();
    let b = build_channel(channel_settings(TtlSetting::Minutes(10)), make()).unwrap();
    assert_eq!(links(&a), links(&b));
    assert_eq!(a.pub_date, b.pub_date);
    assert_eq!(a.last_build_date, b.last_build_date);
    assert_eq!(a.ttl, b.ttl);
}
