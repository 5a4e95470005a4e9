use vstd::prelude::*;
use chrono::Datelike;
use crate::catalog::MediaItem;
use crate::clock::Timestamp;
use crate::google_api::GoogleToken;

verus! {

/// The number of milliseconds in a day.
pub const MILLIS_PER_DAY: i64 = 86_400_000;

/// The number of items asked for in one page of a search.
pub const SEARCH_PAGE_SIZE: i32 = 100;

/// The side of this program that asks the remote photo library.
#[derive(Debug, PartialEq, Eq)]
pub struct GooglePhotosApi {
    pub token: GoogleToken,
}

/// A day of the calendar.
#[derive(Clone, Copy, Debug, PartialEq, Eq, Structural)]
pub struct Date {
    pub year: i32,
    pub month: u32,
    pub day: u32,
}

/// The days from one day to another.
#[derive(Clone, Copy, Debug, PartialEq, Eq, Structural)]
pub struct DateRange {
    pub start_date: Date,
    pub end_date: Date,
}

/// The ranges of days in which a search looks.
#[derive(Debug, PartialEq, Eq)]
pub struct DateFilter {
    pub ranges: Vec<DateRange>,
}

/// What a search is narrowed to.
#[derive(Debug, PartialEq, Eq)]
pub struct SearchFilter {
    pub date_filter: DateFilter,
    pub include_archived_media: bool,
}

/// One request for a page of a search.
#[derive(Debug, PartialEq, Eq)]
pub struct SearchRequest {
    pub page_size: i32,
    pub page_token: Option<String>,
    pub filters: SearchFilter,
}

/// One page of a search, as the remote side answers.
#[derive(Debug, PartialEq, Eq)]
pub struct SearchResponse {
    pub media_items: Option<Vec<MediaItem>>,
    pub next_page_token: Option<String>,
}

/// How far a search has come: what was found, and the page to ask for
/// next.
#[derive(Debug, PartialEq, Eq)]
pub struct SearchProgress {
    pub media_items: Vec<MediaItem>,
    pub page_token: Option<String>,
    /// Whether the remote side has no further page.
    pub exhausted: bool,
}

/// The day of the calendar, in UTC, on which the instant `millis`
/// milliseconds after the epoch falls, as year, month and day of the month, as
/// `chrono` reckons it; `None` for an instant outside the years that `chrono`
/// can express.
pub uninterp spec fn utc_date_of(millis: int) -> Option<(int, int, int)>;

/// Has `chrono::DateTime::from_timestamp_millis` make a UTC date and time of
/// `millis`, and `Datelike` read year, month and day off it. Claimed: the
/// outcome is the one that `utc_date_of` names for `millis`.
#[verifier::external_body]
fn utc_date(millis: i64) -> (date: Option<(i32, u32, u32)>)
    ensures
        match date {
            Some(d) => utc_date_of(millis as int) == Some((d.0 as int, d.1 as int, d.2 as int)),
            None => utc_date_of(millis as int) is None,
        },
{
    match chrono::DateTime::from_timestamp_millis(millis) {
        Some(at) => Some((at.year(), at.month(), at.day())),
        None => None,
    }
}

/// The parts of a day as integers.
pub open spec fn date_parts(date: Date) -> (int, int, int) {
    (date.year as int, date.month as int, date.day as int)
}

impl Date {
    /// The day on which `at` falls, in UTC.
    pub fn from_timestamp(at: Timestamp) -> (date: Option<Date>)
        ensures
            match date {
                Some(d) => utc_date_of(at.millis as int) == Some(date_parts(d)),
                None => utc_date_of(at.millis as int) is None,
            },
    {
        match utc_date(at.millis) {
            Some((year, month, day)) => Some(Date { year, month, day }),
            None => None,
        }
    }
}

/// The instant that lies `num_days_back` days before `end`, in
/// milliseconds since the epoch.
pub open spec fn days_before(end: Timestamp, num_days_back: int) -> int {
    end.millis - num_days_back * MILLIS_PER_DAY
}

/// The range of days that starts `num_days_back` days before `end` and
/// ends on the day of `end`, where both days can be told.
pub open spec fn range_ending(end: Timestamp, num_days_back: int) -> Option<(
    (int, int, int),
    (int, int, int),
)> {
    let start = days_before(end, num_days_back);
    if i64::MIN <= start <= i64::MAX {
        match (utc_date_of(start), utc_date_of(end.millis as int)) {
            (Some(first), Some(last)) => Some((first, last)),
            _ => None,
        }
    } else {
        None
    }
}

/// The first and last day of a range, where there is one.
pub open spec fn range_parts(range: Option<DateRange>) -> Option<((int, int, int), (int, int, int))> {
    match range {
        Some(r) => Some((date_parts(r.start_date), date_parts(r.end_date))),
        None => None,
    }
}

impl DateRange {
    /// The range of days from `num_days_back` days before `end` to `end`;
    /// `None` where one of the two instants lies outside the years that can be
    /// told.
    pub fn range_ending_at(end: Timestamp, num_days_back: i32) -> (range: Option<DateRange>)
        ensures
            range_parts(range) == range_ending(end, num_days_back as int),
    {
        let span: i64 = num_days_back as i64 * MILLIS_PER_DAY;
        let start: i64 = match end.millis.checked_sub(span) {
            Some(start) => start,
            None => { return None; },
        };
        let start_date = match Date::from_timestamp(Timestamp { millis: start }) {
            Some(date) => date,
            None => { return None; },
        };
        let end_date = match Date::from_timestamp(end) {
            Some(date) => date,
            None => { return None; },
        };
        Some(DateRange { start_date, end_date })
    }

    /// The range of days from `num_days_back` days ago to today, by the
    /// system clock.
    pub fn range_from_days(num_days_back: i32) -> (range: Option<DateRange>)
        ensures
            exists|end: Timestamp| #[trigger]
                range_ending(end, num_days_back as int) == range_parts(range),
    {
        let now = Timestamp::now();
        let range = Self::range_ending_at(now, num_days_back);
        range
    }
}

impl DateFilter {
    /// The filter that looks in `range` alone.
    pub fn from(range: DateRange) -> (filter: DateFilter)
        ensures
            filter.ranges@ == seq![range],
    {
        let mut ranges: Vec<DateRange> = Vec::new();
        ranges.push(range);
        DateFilter { ranges }
    }
}

/// The request for one page of the search for what was made in `range`,
/// archived items among it: the first page without a `page_token`, else the
/// page that the token names.
pub fn make_search_request(page_token: &Option<String>, range: DateRange) -> (request:
    SearchRequest)
    ensures
        request.page_size == SEARCH_PAGE_SIZE,
        request.page_token == *page_token,
        request.filters.date_filter.ranges@ == seq![range],
        request.filters.include_archived_media,
{
    let page_token: Option<String> = match page_token {
        Some(token) => Some(token.clone()),
        None => None,
    };
    SearchRequest {
        page_size: SEARCH_PAGE_SIZE,
        page_token,
        filters: SearchFilter { date_filter: DateFilter::from(range), include_archived_media: true },
    }
}

/// The items of a page.
pub open spec fn page_items(response: SearchResponse) -> Seq<MediaItem> {
    match response.media_items {
        Some(items) => items@,
        None => Seq::empty(),
    }
}

impl SearchProgress {
    /// A search that has found nothing yet and begins with the first page.
    pub fn start() -> (progress: SearchProgress)
        ensures
            progress.media_items@ == Seq::<MediaItem>::empty(),
            progress.page_token is None,
            !progress.exhausted,
    {
        SearchProgress { media_items: Vec::new(), page_token: None, exhausted: false }
    }

    /// Whether the search goes on with a search that is to find
    /// `limit_hint` items: the remote side has more, and fewer were found.
    pub open spec fn wants_page(&self, limit_hint: usize) -> bool {
        !self.exhausted && self.media_items@.len() < limit_hint
    }

    /// Whether a further page is to be asked for.
    pub fn needs_page(&self, limit_hint: usize) -> (needed: bool)
        ensures
            needed == self.wants_page(limit_hint),
    {
        !self.exhausted && self.media_items.len() < limit_hint
    }

    /// Takes in one page: its items go behind those found so far, and the
    /// search goes on from the page that the answer names, or ends where it
    /// names none.
    pub fn on_page(&mut self, response: SearchResponse)
        ensures
            final(self).media_items@ == old(self).media_items@ + page_items(response),
            final(self).exhausted == (old(self).exhausted || response.next_page_token is None),
            final(self).page_token == match response.next_page_token {
                Some(token) => Some(token),
                None => old(self).page_token,
            },
    {
        let SearchResponse { media_items, next_page_token } = response;
        match media_items {
            Some(mut items) => {
                self.media_items.append(&mut items);
            },
            None => {
                assert(self.media_items@ =~= old(self).media_items@ + Seq::<MediaItem>::empty());
            },
        }
        match next_page_token {
            Some(token) => {
                self.page_token = Some(token);
            },
            None => {
                self.exhausted = true;
            },
        }
    }
}

} // verus!
