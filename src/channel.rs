//! Assembling the channel: items in time order, its dates, and the settings
//! that are written out as text.
use crate::commit::{FeedError, FeedItem, TimedItem};
use crate::order::{is_stable_order, stable_order};
use crate::outside::{
    base_parses, digit_count, duration_secs_of, parse_duration_secs, url_parses, MAX_DURATION_DIGITS,
};
use crate::text::{decimal, decimal_text, int_text, signed_decimal};
use vstd::prelude::*;

verus! {

/// The time-to-live setting as the configuration gives it.
pub enum TtlSetting {
    /// No time-to-live is set.
    Absent,
    /// A number of minutes.
    Minutes(i64),
    /// A duration written out, such as `2h`.
    Text(String),
    /// A value of any other type.
    Invalid,
}

/// The channel settings from the configuration.
pub struct ChannelSettings {
    pub title: String,
    pub link: String,
    pub description: String,
    pub language: Option<String>,
    pub copyright: Option<String>,
    pub managing_editor: Option<String>,
    pub webmaster: Option<String>,
    pub generator: Option<String>,
    pub ttl: TtlSetting,
    /// The entries of the skip-hours list; `None` for one that is not an integer.
    pub skip_hours: Vec<Option<i64>>,
    /// The entries of the skip-days list; `None` for one that is not an integer.
    pub skip_days: Vec<Option<i64>>,
}

/// The feed channel, ready to be written out.
pub struct FeedChannel {
    pub title: String,
    pub link: String,
    pub description: String,
    /// The date of the earliest item.
    pub pub_date: Option<String>,
    /// The date of the latest item.
    pub last_build_date: Option<String>,
    pub language: Option<String>,
    pub copyright: Option<String>,
    pub managing_editor: Option<String>,
    pub webmaster: Option<String>,
    pub generator: Option<String>,
    /// Time to live, in minutes.
    pub ttl: Option<String>,
    pub skip_hours: Vec<String>,
    pub skip_days: Vec<String>,
    pub items: Vec<FeedItem>,
}

/// The whole minutes of `secs` seconds, in decimal.
pub fn minutes_text(secs: u64) -> (r: String)
    ensures
        r@ == decimal((secs / 60) as nat),
{
    decimal_text(secs / 60)
}

/// The number of decimal digits in `s`.
pub fn count_digits(s: &str) -> (r: usize)
    ensures
        r == digit_count(s@),
{
    let n = s.unicode_len();
    let mut count: usize = 0;
    let mut i: usize = 0;
    while i < n
        invariant
            n == s@.len(),
            i <= n,
            count <= i,
            count == digit_count(s@.subrange(0, i as int)),
        decreases n - i,
    {
        let ch = s.get_char(i);
        assert(s@.subrange(0, i + 1).drop_last() =~= s@.subrange(0, i as int));
        if '0' <= ch && ch <= '9' {
            count = count + 1;
        }
        i = i + 1;
    }
    assert(s@.subrange(0, n as int) =~= s@);
    count
}

/// The time-to-live text that a setting yields, or `None` where none is set.
pub open spec fn ttl_of(t: TtlSetting) -> Result<Option<Seq<char>>, FeedError> {
    match t {
        TtlSetting::Absent => Ok(None),
        TtlSetting::Minutes(m) => Ok(Some(signed_decimal(m as int))),
        TtlSetting::Text(s) => if digit_count(s@) > MAX_DURATION_DIGITS {
            Err(FeedError::InvalidDuration)
        } else {
            match duration_secs_of(s@) {
                Some(secs) => Ok(Some(decimal((secs / 60) as nat))),
                None => Err(FeedError::InvalidDuration),
            }
        },
        TtlSetting::Invalid => Err(FeedError::InvalidTtl),
    }
}

/// The channel's time to live in minutes: a number is taken as it is, a
/// duration text is read and cut down to whole minutes. A text with more
/// digits than `MAX_DURATION_DIGITS` is refused as a duration.
pub fn ttl_text(t: &TtlSetting) -> (r: Result<Option<String>, FeedError>)
    ensures
        match (r, ttl_of(*t)) {
            (Ok(Some(v)), Ok(Some(w))) => v@ == w,
            (Ok(None), Ok(None)) => true,
            (Err(e), Err(f)) => e == f,
            _ => false,
        },
{
    match t {
        TtlSetting::Absent => Ok(None),
        TtlSetting::Minutes(m) => Ok(Some(int_text(*m))),
        TtlSetting::Text(s) => {
            if count_digits(s.as_str()) > MAX_DURATION_DIGITS {
                return Err(FeedError::InvalidDuration);
            }
            match parse_duration_secs(s.as_str()) {
                Ok(secs) => Ok(Some(minutes_text(secs))),
                Err(_) => Err(FeedError::InvalidDuration),
            }
        },
        TtlSetting::Invalid => Err(FeedError::InvalidTtl),
    }
}

/// The integer entries of a list, in decimal and in their order; the others
/// are left out.
pub open spec fn integer_texts(s: Seq<Option<i64>>) -> Seq<Seq<char>>
    decreases s.len(),
{
    if s.len() == 0 {
        Seq::empty()
    } else {
        let head = integer_texts(s.drop_last());
        match s.last() {
            Some(x) => head.push(signed_decimal(x as int)),
            None => head,
        }
    }
}

/// The skip-hours or skip-days entries as text, dropping those that are not
/// integers.
pub fn integer_entries(entries: &Vec<Option<i64>>) -> (r: Vec<String>)
    ensures
        r@.map_values(|x: String| x@) == integer_texts(entries@),
{
    let mut out: Vec<String> = Vec::new();
    let mut i: usize = 0;
    while i < entries.len()
        invariant
            i <= entries@.len(),
            out@.map_values(|x: String| x@) == integer_texts(entries@.subrange(0, i as int)),
        decreases entries@.len() - i,
    {
        let ghost before = out@;
        assert(entries@.subrange(0, i + 1).drop_last() =~= entries@.subrange(0, i as int));
        if let Some(x) = entries[i] {
            out.push(int_text(x));
            assert(out@.map_values(|x: String| x@) =~= before.map_values(|x: String| x@).push(
                signed_decimal(x as int),
            ));
        }
        i = i + 1;
    }
    assert(entries@.subrange(0, entries@.len() as int) =~= entries@);
    out
}

/// The times of `items`, in their order.
pub open spec fn times_of(items: Seq<TimedItem>) -> Seq<i64> {
    items.map_values(|x: TimedItem| x.time)
}

/// `out` holds the items of `items` in the stable order `ord` of their times.
pub open spec fn arranged(items: Seq<TimedItem>, out: Seq<FeedItem>, ord: Seq<usize>) -> bool {
    &&& is_stable_order(times_of(items), ord)
    &&& out.len() == ord.len()
    &&& forall|k: int| 0 <= k < out.len() ==> out[k] == #[trigger] items[ord[k] as int].item
}

/// The items ordered by time, ascending; items with equal times keep the
/// order in which they came.
pub fn sort_items(items: &Vec<TimedItem>) -> (r: Vec<FeedItem>)
    ensures
        exists|ord: Seq<usize>| #[trigger] arranged(items@, r@, ord),
{
    let mut times: Vec<i64> = Vec::new();
    let mut i: usize = 0;
    while i < items.len()
        invariant
            i <= items@.len(),
            times@ =~= times_of(items@).subrange(0, i as int),
        decreases items@.len() - i,
    {
        times.push(items[i].time);
        i = i + 1;
    }
    assert(times@ =~= times_of(items@));
    let ord = stable_order(&times);
    let mut out: Vec<FeedItem> = Vec::new();
    let mut k: usize = 0;
    while k < ord.len()
        invariant
            is_stable_order(times@, ord@),
            times@.len() == items@.len(),
            k <= ord@.len(),
            out@.len() == k,
            forall|j: int| 0 <= j < k ==> out@[j] == #[trigger] items@[ord@[j] as int].item,
        decreases ord@.len() - k,
    {
        out.push(items[ord[k]].item.copy());
        k = k + 1;
    }
    assert(arranged(items@, out@, ord@));
    out
}

/// The date of the first item of `s`, if any.
pub open spec fn first_date(s: Seq<FeedItem>) -> Option<String> {
    if s.len() == 0 { None } else { Some(s[0].pub_date) }
}

/// The date of the last item of `s`, if any.
pub open spec fn last_date(s: Seq<FeedItem>) -> Option<String> {
    if s.len() == 0 { None } else { Some(s[s.len() - 1].pub_date) }
}

/// The text of each string of `v`.
pub open spec fn texts(v: Seq<String>) -> Seq<Seq<char>> {
    v.map_values(|x: String| x@)
}

/// What `build_channel` owes on success: the settings carried over, the
/// items in stable time order, the dates of the first and last of them, and
/// the time to live and skip lists as text.
pub open spec fn channel_from(s: ChannelSettings, items: Seq<TimedItem>, ch: FeedChannel) -> bool {
    &&& ch.title == s.title
    &&& ch.link == s.link
    &&& ch.description == s.description
    &&& ch.language == s.language
    &&& ch.copyright == s.copyright
    &&& ch.managing_editor == s.managing_editor
    &&& ch.webmaster == s.webmaster
    &&& ch.generator == s.generator
    &&& exists|ord: Seq<usize>| #[trigger] arranged(items, ch.items@, ord)
    &&& ch.pub_date == first_date(ch.items@)
    &&& ch.last_build_date == last_date(ch.items@)
    &&& ttl_of(s.ttl) matches Ok(t) && match (ch.ttl, t) {
        (Some(v), Some(w)) => v@ == w,
        (None, None) => true,
        _ => false,
    }
    &&& texts(ch.skip_hours@) == integer_texts(s.skip_hours@)
    &&& texts(ch.skip_days@) == integer_texts(s.skip_days@)
}

/// The channel for `items`: they are put in time order, and the channel's
/// publish and last-build dates are those of the first and last of them
/// (none when there are no items). Fails only where the time to live is
/// not a number or a duration.
pub fn build_channel(settings: ChannelSettings, items: Vec<TimedItem>) -> (r: Result<
    FeedChannel,
    FeedError,
>)
    ensures
        r is Ok <==> ttl_of(settings.ttl) is Ok,
        r matches Err(e) ==> ttl_of(settings.ttl) == Err::<Option<Seq<char>>, FeedError>(e),
        r matches Ok(ch) ==> channel_from(settings, items@, ch),
        items@.len() == 0 ==> (r matches Ok(ch) ==> ch.items@.len() == 0 && ch.pub_date is None
            && ch.last_build_date is None),
{
    let ttl = match ttl_text(&settings.ttl) {
        Ok(t) => t,
        Err(e) => return Err(e),
    };
    let skip_hours = integer_entries(&settings.skip_hours);
    let skip_days = integer_entries(&settings.skip_days);
    let sorted = sort_items(&items);
    let n = sorted.len();
    let pub_date = if n == 0 {
        None
    } else {
        Some(sorted[0].pub_date.clone())
    };
    let last_build_date = if n == 0 {
        None
    } else {
        Some(sorted[n - 1].pub_date.clone())
    };
    proof {
        if items@.len() == 0 {
            let ord = choose|ord: Seq<usize>| #[trigger] arranged(items@, sorted@, ord);
            assert(times_of(items@).len() == 0);
        }
    }
    Ok(FeedChannel {
        title: settings.title,
        link: settings.link,
        description: settings.description,
        pub_date,
        last_build_date,
        language: settings.language,
        copyright: settings.copyright,
        managing_editor: settings.managing_editor,
        webmaster: settings.webmaster,
        generator: settings.generator,
        ttl,
        skip_hours,
        skip_days,
        items: sorted,
    })
}

/// Checks that `text` is an absolute URL that item links can be joined onto.
pub fn check_base_url(text: &str) -> (r: Result<(), FeedError>)
    ensures
        r is Ok <==> base_parses(text@),
        r matches Err(e) ==> e == FeedError::InvalidBaseUrl,
{
    match url_parses(text) {
        Ok(()) => Ok(()),
        Err(_) => Err(FeedError::InvalidBaseUrl),
    }
}

} // verus!
