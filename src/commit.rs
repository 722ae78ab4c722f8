//! From one commit and its changed files to the feed items it yields.
use crate::ignore::{ignore_match, is_ignored, repo_relative, IgnoreList};
use crate::outside::{
    join_url, rfc2822_date, rfc2822_text, url_join, EARLIEST_LOCAL_SECS, LATEST_LOCAL_SECS,
};
use crate::paths::{url_path, url_path_of};
use crate::text::{author_line, author_text, fill_template, fill_title, has_marker_line, opts_out};
use vstd::prelude::*;

verus! {

/// Why a feed cannot be built.
#[derive(Debug, Clone, Copy, PartialEq, Eq, Structural)]
pub enum FeedError {
    /// The commit author has no email or no name.
    MissingAuthor,
    /// The commit time or its offset cannot be written as an RFC 2822 date.
    InvalidTimestamp,
    /// A changed file has no path on the side that names it.
    MissingPath,
    /// A changed file's path is not relative to the repository.
    InvalidPath,
    /// The base URL is not an absolute URL.
    InvalidBaseUrl,
    /// A file's URL path cannot be joined onto the base URL.
    InvalidLink,
    /// The list of ignored files does not compile to a path filter.
    InvalidIgnorePattern,
    /// The time-to-live text is not a duration.
    InvalidDuration,
    /// The time-to-live setting is neither a number nor a text.
    InvalidTtl,
}

/// How a file changed in a commit, as the diff reports it.
#[derive(Debug, Clone, Copy, PartialEq, Eq, Structural)]
pub enum DeltaStatus {
    Added,
    Deleted,
    Modified,
    /// Renamed, copied, type changed, or anything else.
    Other,
}

/// One changed file of a commit diff.
pub struct ChangeDelta {
    pub status: DeltaStatus,
    /// The path before the change; meaningful for deleted and modified files.
    pub old_path: Option<String>,
    /// The path after the change; meaningful for added and modified files.
    pub new_path: Option<String>,
}

/// The kinds of change that yield a feed item.
#[derive(Debug, Clone, Copy, PartialEq, Eq, Structural)]
pub enum ChangeKind {
    New,
    Removed,
    Modified,
}

/// What the feed needs of a commit, its diff aside.
pub struct CommitInfo {
    pub parent_count: usize,
    /// The message, where it is valid text.
    pub message: Option<String>,
    pub author_name: Option<String>,
    pub author_email: Option<String>,
    /// Author time in seconds since the epoch.
    pub seconds: i64,
    /// Author time zone, in minutes east of UTC.
    pub offset_minutes: i32,
}

/// The settings that shape each item.
pub struct ItemSettings {
    /// Taken off the front of each file path that starts with it.
    pub strip_prefix: String,
    /// Title template for an added file; `%p` stands for its URL path.
    pub title_new: Option<String>,
    /// Title template for a removed file.
    pub title_removed: Option<String>,
    /// Title template for a modified file.
    pub title_modified: Option<String>,
}

/// One entry of the feed.
pub struct FeedItem {
    /// `<email> (<name>)` of the commit author.
    pub author: String,
    /// The author time as an RFC 2822 date, at the author's offset.
    pub pub_date: String,
    pub title: Option<String>,
    pub link: String,
}

/// A feed item with the commit time it is ordered by.
pub struct TimedItem {
    pub time: i64,
    pub item: FeedItem,
}

impl FeedItem {
    /// A field by field copy.
    pub fn copy(&self) -> (r: FeedItem)
        ensures
            r == *self,
    {
        FeedItem {
            author: self.author.clone(),
            pub_date: self.pub_date.clone(),
            title: match &self.title {
                Some(t) => Some(t.clone()),
                None => None,
            },
            link: self.link.clone(),
        }
    }
}

/// A commit yields items only when it has at most one parent and its
/// message holds no `no-rss` line.
pub open spec fn qualifies(c: CommitInfo) -> bool {
    c.parent_count <= 1 && !(c.message is Some && has_marker_line(c.message->Some_0@))
}

/// Whether the commit `c` is one whose changes become feed items.
pub fn commit_qualifies(c: &CommitInfo) -> (r: bool)
    ensures
        r == qualifies(*c),
{
    if c.parent_count > 1 {
        return false;
    }
    match &c.message {
        Some(m) => !opts_out(m.as_str()),
        None => true,
    }
}

/// The kind of item that a diff status yields, if any.
pub open spec fn kind_of(s: DeltaStatus) -> Option<ChangeKind> {
    match s {
        DeltaStatus::Added => Some(ChangeKind::New),
        DeltaStatus::Deleted => Some(ChangeKind::Removed),
        DeltaStatus::Modified => Some(ChangeKind::Modified),
        DeltaStatus::Other => None,
    }
}

/// The path that names the file of a change: the old one for a removal,
/// the new one otherwise.
pub open spec fn path_of(d: ChangeDelta, k: ChangeKind) -> Option<String> {
    match k {
        ChangeKind::Removed => d.old_path,
        _ => d.new_path,
    }
}

/// The title template configured for a kind of change.
pub open spec fn template_of(s: ItemSettings, k: ChangeKind) -> Option<String> {
    match k {
        ChangeKind::New => s.title_new,
        ChangeKind::Removed => s.title_removed,
        ChangeKind::Modified => s.title_modified,
    }
}

/// The title of the item for a change of kind `k` to `path`: the template
/// with `%p` filled in by the file's URL path, or none without a template.
pub open spec fn title_of(s: ItemSettings, k: ChangeKind, path: Seq<char>) -> Option<Seq<char>> {
    match template_of(s, k) {
        Some(t) => Some(fill_template(t@, url_path_of(path, s.strip_prefix@))),
        None => None,
    }
}

/// The kind of item that `status` yields, or `None` for a change that the
/// feed does not report.
pub fn change_kind(status: DeltaStatus) -> (r: Option<ChangeKind>)
    ensures
        r == kind_of(status),
{
    match status {
        DeltaStatus::Added => Some(ChangeKind::New),
        DeltaStatus::Deleted => Some(ChangeKind::Removed),
        DeltaStatus::Modified => Some(ChangeKind::Modified),
        DeltaStatus::Other => None,
    }
}

/// The title of the item for a change of kind `k` to the file at `path`.
pub fn item_title(settings: &ItemSettings, k: ChangeKind, path: &str) -> (r: Option<String>)
    ensures
        r matches Some(t) ==> title_of(*settings, k, path@) == Some(t@),
        r is None ==> title_of(*settings, k, path@) is None,
{
    let template = match k {
        ChangeKind::New => &settings.title_new,
        ChangeKind::Removed => &settings.title_removed,
        ChangeKind::Modified => &settings.title_modified,
    };
    match template {
        Some(t) => {
            let up = url_path(path, settings.strip_prefix.as_str());
            Some(fill_title(t.as_str(), up.as_str()))
        },
        None => None,
    }
}

/// Whether the commit time can be written as a date: its offset is under a
/// day and its local date falls in the years 0 to 9999.
pub open spec fn datable(c: CommitInfo) -> bool {
    &&& -1440 < c.offset_minutes < 1440
    &&& EARLIEST_LOCAL_SECS <= c.seconds + 60 * c.offset_minutes <= LATEST_LOCAL_SECS
}

/// The author time of `c` as an RFC 2822 date at the author's own offset.
pub fn commit_date(c: &CommitInfo) -> (r: Result<String, FeedError>)
    ensures
        datable(*c) ==> (r matches Ok(s) && s@ == rfc2822_text(c.seconds, c.offset_minutes)),
        !datable(*c) ==> r == Err::<String, FeedError>(FeedError::InvalidTimestamp),
{
    if c.offset_minutes <= -1440 || c.offset_minutes >= 1440 {
        return Err(FeedError::InvalidTimestamp);
    }
    let local: i128 = c.seconds as i128 + 60 * (c.offset_minutes as i128);
    if local < EARLIEST_LOCAL_SECS as i128 || local > LATEST_LOCAL_SECS as i128 {
        return Err(FeedError::InvalidTimestamp);
    }
    match rfc2822_date(c.seconds, c.offset_minutes) {
        Some(s) => Ok(s),
        None => Err(FeedError::InvalidTimestamp),
    }
}

/// The text of an optional string.
pub open spec fn opt_view(o: Option<String>) -> Option<Seq<char>> {
    match o {
        Some(t) => Some(t@),
        None => None,
    }
}

/// Whether `ignore` drops the file at `p`.
pub open spec fn ignored(ignore: Option<IgnoreList>, p: Seq<char>) -> bool {
    match ignore {
        Some(l) => ignore_match(l.patterns(), p),
        None => false,
    }
}

/// What goes wrong with change `d`, if anything: a reported change without
/// its path, a path that the ignore list cannot be asked about, or a kept
/// file whose URL path does not join onto `base`.
pub open spec fn delta_failure(
    s: ItemSettings,
    base: Seq<char>,
    ignore: Option<IgnoreList>,
    d: ChangeDelta,
) -> Option<FeedError> {
    match kind_of(d.status) {
        None => None,
        Some(k) => match path_of(d, k) {
            None => Some(FeedError::MissingPath),
            Some(p) => if ignore is Some && !repo_relative(p@) {
                Some(FeedError::InvalidPath)
            } else if ignored(ignore, p@) {
                None
            } else if url_join(base, url_path_of(p@, s.strip_prefix@)) is None {
                Some(FeedError::InvalidLink)
            } else {
                None
            },
        },
    }
}

/// Whether change `d` yields an item: it is reported, nothing goes wrong
/// with it, and its file is not ignored.
pub open spec fn yields_item(
    s: ItemSettings,
    base: Seq<char>,
    ignore: Option<IgnoreList>,
    d: ChangeDelta,
) -> bool {
    match kind_of(d.status) {
        Some(k) => delta_failure(s, base, ignore, d) is None && path_of(d, k) is Some && !ignored(
            ignore,
            path_of(d, k)->Some_0@,
        ),
        None => false,
    }
}

/// The change at `j` is the first of `deltas` with which something goes
/// wrong.
pub open spec fn first_failure(
    s: ItemSettings,
    base: Seq<char>,
    ignore: Option<IgnoreList>,
    deltas: Seq<ChangeDelta>,
    j: int,
) -> bool {
    &&& 0 <= j < deltas.len()
    &&& delta_failure(s, base, ignore, deltas[j]) is Some
    &&& forall|i: int| 0 <= i < j ==> delta_failure(s, base, ignore, #[trigger] deltas[i]) is None
}

/// `it` is the item that change `d` yields in commit `c`, whose author line
/// is `author` and whose date is `date`; its link is its URL path joined
/// onto `base`.
pub open spec fn item_for(
    s: ItemSettings,
    base: Seq<char>,
    c: CommitInfo,
    author: Seq<char>,
    date: Seq<char>,
    d: ChangeDelta,
    it: TimedItem,
) -> bool {
    match kind_of(d.status) {
        Some(k) => {
            &&& path_of(d, k) is Some
            &&& it.time == c.seconds
            &&& it.item.author@ == author
            &&& it.item.pub_date@ == date
            &&& opt_view(it.item.title) == title_of(s, k, path_of(d, k)->Some_0@)
            &&& url_join(base, url_path_of(path_of(d, k)->Some_0@, s.strip_prefix@)) == Some(
                it.item.link@,
            )
        },
        None => false,
    }
}

/// `items` are the items of the changes at positions `src` of `deltas`, in
/// diff order, and `src` holds exactly the changes that yield an item.
pub open spec fn commit_items_from(
    s: ItemSettings,
    base: Seq<char>,
    ignore: Option<IgnoreList>,
    c: CommitInfo,
    deltas: Seq<ChangeDelta>,
    items: Seq<TimedItem>,
    src: Seq<int>,
) -> bool {
    &&& src.len() == items.len()
    &&& forall|k: int|
        0 <= k < src.len() ==> 0 <= #[trigger] src[k] < deltas.len() && yields_item(
            s,
            base,
            ignore,
            deltas[src[k]],
        ) && item_for(
            s,
            base,
            c,
            author_line(c.author_email->Some_0@, c.author_name->Some_0@),
            rfc2822_text(c.seconds, c.offset_minutes),
            deltas[src[k]],
            items[k],
        )
    &&& forall|k: int, l: int| 0 <= k < l < src.len() ==> #[trigger] src[k] < #[trigger] src[l]
    &&& forall|j: int|
        0 <= j < deltas.len() && yields_item(s, base, ignore, deltas[j]) ==> #[trigger] src.contains(
            j,
        )
}

/// Whether commit `c` has what every item of it needs: an author with email
/// and name, and a time that can be written as a date.
pub open spec fn commit_ready(c: CommitInfo) -> bool {
    c.author_email is Some && c.author_name is Some && datable(c)
}

/// The feed items that commit `c` yields from the changes `deltas` of its
/// diff. Nothing comes of a merge commit or of one whose message has a
/// `no-rss` line. Otherwise each added, removed or modified file yields one
/// item, in diff order, unless `ignore` matches its path; other changes
/// yield none. The link of an item is its URL path joined onto the URL
/// `base`. The first change with which something goes wrong decides the
/// error.
pub fn commit_items(
    c: &CommitInfo,
    deltas: &Vec<ChangeDelta>,
    settings: &ItemSettings,
    ignore: &Option<IgnoreList>,
    base: &str,
) -> (r: Result<Vec<TimedItem>, FeedError>)
    ensures
        !qualifies(*c) ==> (r matches Ok(v) && v@.len() == 0),
        c.parent_count > 1 ==> (r matches Ok(v) && v@.len() == 0),
        c.message matches Some(m) && has_marker_line(m@) ==> (r matches Ok(v) && v@.len() == 0),
        qualifies(*c) && (c.author_email is None || c.author_name is None) ==> r == Err::<
            Vec<TimedItem>,
            FeedError,
        >(FeedError::MissingAuthor),
        qualifies(*c) && c.author_email is Some && c.author_name is Some && !datable(*c) ==> r
            == Err::<Vec<TimedItem>, FeedError>(FeedError::InvalidTimestamp),
        qualifies(*c) && commit_ready(*c) ==> (r is Ok <==> forall|j: int|
            0 <= j < deltas@.len() ==> delta_failure(*settings, base@, *ignore, #[trigger] deltas@[j])
                is None),
        qualifies(*c) && commit_ready(*c) && r is Err ==> exists|j: int|
            #[trigger] first_failure(*settings, base@, *ignore, deltas@, j) && delta_failure(
                *settings,
                base@,
                *ignore,
                deltas@[j],
            ) == Some(r->Err_0),
        qualifies(*c) && r is Ok ==> exists|src: Seq<int>|
            #[trigger] commit_items_from(*settings, base@, *ignore, *c, deltas@, r->Ok_0@, src),
{
    if !commit_qualifies(c) {
        return Ok(Vec::new());
    }
    let email = match &c.author_email {
        Some(e) => Some(e.as_str()),
        None => None,
    };
    let name = match &c.author_name {
        Some(n) => Some(n.as_str()),
        None => None,
    };
    let author = match author_text(email, name) {
        Some(a) => a,
        None => return Err(FeedError::MissingAuthor),
    };
    let date = match commit_date(c) {
        Ok(d) => d,
        Err(e) => return Err(e),
    };
    let ghost a = author_line(c.author_email->Some_0@, c.author_name->Some_0@);
    let ghost dt = rfc2822_text(c.seconds, c.offset_minutes);
    let mut out: Vec<TimedItem> = Vec::new();
    let ghost mut src: Seq<int> = Seq::empty();
    let mut i: usize = 0;
    while i < deltas.len()
        invariant
            i <= deltas@.len(),
            qualifies(*c),
            commit_ready(*c),
            author@ == a,
            date@ == dt,
            a == author_line(c.author_email->Some_0@, c.author_name->Some_0@),
            dt == rfc2822_text(c.seconds, c.offset_minutes),
            src.len() == out@.len(),
            forall|k: int|
                0 <= k < src.len() ==> 0 <= #[trigger] src[k] < i && yields_item(
                    *settings,
                    base@,
                    *ignore,
                    deltas@[src[k]],
                ) && item_for(*settings, base@, *c, a, dt, deltas@[src[k]], out@[k]),
            forall|k: int, l: int| 0 <= k < l < src.len() ==> #[trigger] src[k] < #[trigger] src[l],
            forall|j: int|
                0 <= j < i && yields_item(*settings, base@, *ignore, deltas@[j])
                    ==> #[trigger] src.contains(j),
            forall|j: int|
                0 <= j < i ==> delta_failure(*settings, base@, *ignore, #[trigger] deltas@[j])
                    is None,
        decreases deltas@.len() - i,
    {
        let d = &deltas[i];
        if let Some(k) = change_kind(d.status) {
            let p = match k {
                ChangeKind::Removed => &d.old_path,
                _ => &d.new_path,
            };
            let path = match p {
                Some(path) => path,
                None => {
                    assert(first_failure(*settings, base@, *ignore, deltas@, i as int));
                    return Err(FeedError::MissingPath);
                },
            };
            let skip = match ignore {
                Some(list) => match is_ignored(list, path.as_str()) {
                    Ok(b) => b,
                    Err(e) => {
                        assert(first_failure(*settings, base@, *ignore, deltas@, i as int));
                        return Err(e);
                    },
                },
                None => false,
            };
            if !skip {
                let title = item_title(settings, k, path.as_str());
                let up = url_path(path.as_str(), settings.strip_prefix.as_str());
                let link = match join_url(base, up.as_str()) {
                    Ok(l) => l,
                    Err(_) => {
                        assert(first_failure(*settings, base@, *ignore, deltas@, i as int));
                        return Err(FeedError::InvalidLink);
                    },
                };
                let it = TimedItem {
                    time: c.seconds,
                    item: FeedItem { author: author.clone(), pub_date: date.clone(), title, link },
                };
                proof {
                    assert(item_for(*settings, base@, *c, a, dt, deltas@[i as int], it));
                    assert(yields_item(*settings, base@, *ignore, deltas@[i as int]));
                }
                out.push(it);
                proof {
                    let old_src = src;
                    src = src.push(i as int);
                    assert(src[src.len() - 1] == i);
                    assert forall|j: int|
                        0 <= j < i + 1 && yields_item(*settings, base@, *ignore, deltas@[j])
                            implies #[trigger] src.contains(j) by {
                        if j < i {
                            assert(old_src.contains(j));
                            let k = choose|k: int| 0 <= k < old_src.len() && old_src[k] == j;
                            assert(src[k] == j);
                        } else {
                            assert(src[src.len() - 1] == j);
                        }
                    }
                }
            } else {
                assert(!yields_item(*settings, base@, *ignore, deltas@[i as int]));
            }
        }
        i = i + 1;
    }
    let r: Result<Vec<TimedItem>, FeedError> = Ok(out);
    assert(commit_items_from(*settings, base@, *ignore, *c, deltas@, r->Ok_0@, src));
    r
}

/// `a` strictly increases.
pub open spec fn increasing(a: Seq<int>) -> bool {
    forall|k: int, l: int| 0 <= k < l < a.len() ==> #[trigger] a[k] < #[trigger] a[l]
}

/// Two increasing sequences that hold each other's elements agree on their
/// first `n` places.
proof fn lemma_increasing_prefix(a: Seq<int>, b: Seq<int>, n: int)
    requires
        increasing(a),
        increasing(b),
        forall|k: int| 0 <= k < a.len() ==> b.contains(#[trigger] a[k]),
        forall|k: int| 0 <= k < b.len() ==> a.contains(#[trigger] b[k]),
        0 <= n <= a.len(),
        n <= b.len(),
    ensures
        forall|i: int| 0 <= i < n ==> a[i] == b[i],
    decreases n,
{
    if n > 0 {
        lemma_increasing_prefix(a, b, n - 1);
        let k = n - 1;
        assert(b.contains(a[k]));
        let m = choose|m: int| 0 <= m < b.len() && b[m] == a[k];
        if m < k {
            assert(a[m] < a[k]);
        } else if m > k {
            assert(b[k] < b[m]);
            assert(a.contains(b[k]));
            let p = choose|p: int| 0 <= p < a.len() && a[p] == b[k];
            if p < k {
                assert(a[p] == b[p]);
                assert(b[p] < b[k]);
            } else if p > k {
                assert(a[k] < a[p]);
            }
        }
    }
}

/// Two increasing sequences that hold each other's elements are equal.
proof fn lemma_increasing_same(a: Seq<int>, b: Seq<int>)
    requires
        increasing(a),
        increasing(b),
        forall|k: int| 0 <= k < a.len() ==> b.contains(#[trigger] a[k]),
        forall|k: int| 0 <= k < b.len() ==> a.contains(#[trigger] b[k]),
    ensures
        a == b,
{
    if a.len() > b.len() {
        lemma_increasing_prefix(a, b, b.len() as int);
        let j = b.len() as int;
        assert(b.contains(a[j]));
        let m = choose|m: int| 0 <= m < b.len() && b[m] == a[j];
        assert(a[m] < a[j]);
    } else if b.len() > a.len() {
        lemma_increasing_prefix(a, b, a.len() as int);
        let j = a.len() as int;
        assert(a.contains(b[j]));
        let m = choose|m: int| 0 <= m < a.len() && a[m] == b[j];
        assert(b[m] < b[j]);
    } else {
        lemma_increasing_prefix(a, b, a.len() as int);
    }
    assert(a =~= b);
}

/// Commit items are determined by their inputs: two lists of items that
/// both meet what `commit_items` promises for the same commit, changes,
/// settings, ignore list and base URL come from the same changes and agree
/// item by item in every field.
pub proof fn lemma_commit_items_unique(
    s: ItemSettings,
    base: Seq<char>,
    ignore: Option<IgnoreList>,
    c: CommitInfo,
    deltas: Seq<ChangeDelta>,
    items1: Seq<TimedItem>,
    src1: Seq<int>,
    items2: Seq<TimedItem>,
    src2: Seq<int>,
)
    requires
        commit_items_from(s, base, ignore, c, deltas, items1, src1),
        commit_items_from(s, base, ignore, c, deltas, items2, src2),
    ensures
        src1 == src2,
        items1.len() == items2.len(),
        forall|k: int|
            0 <= k < items1.len() ==> {
                &&& (#[trigger] items1[k]).time == items2[k].time
                &&& items1[k].item.author@ == items2[k].item.author@
                &&& items1[k].item.pub_date@ == items2[k].item.pub_date@
                &&& opt_view(items1[k].item.title) == opt_view(items2[k].item.title)
                &&& items1[k].item.link@ == items2[k].item.link@
            },
{
    assert forall|k: int| 0 <= k < src1.len() implies src2.contains(#[trigger] src1[k]) by {
        assert(yields_item(s, base, ignore, deltas[src1[k]]));
    }
    assert forall|k: int| 0 <= k < src2.len() implies src1.contains(#[trigger] src2[k]) by {
        assert(yields_item(s, base, ignore, deltas[src2[k]]));
    }
    lemma_increasing_same(src1, src2);
    assert forall|k: int| 0 <= k < items1.len() implies {
        &&& (#[trigger] items1[k]).time == items2[k].time
        &&& items1[k].item.author@ == items2[k].item.author@
        &&& items1[k].item.pub_date@ == items2[k].item.pub_date@
        &&& opt_view(items1[k].item.title) == opt_view(items2[k].item.title)
        &&& items1[k].item.link@ == items2[k].item.link@
    } by {
        assert(src1[k] == src2[k]);
        let d = deltas[src1[k]];
        assert(kind_of(d.status) is Some);
    }
}

} // verus!
