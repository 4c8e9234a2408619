//! Keyset listing of a user's jobs.
//!
//! The listing index holds the job records by user, newest first; records
//! of one user with the same timestamp follow each other by ascending job
//! identifier. A page is read from the rows of one user: it begins at the
//! first row that lies after the cursor and holds at most `limit` rows. The
//! cursor for the next page is the key of the page's last row, and is given
//! exactly when rows remain beyond the page. Since a cursor names a place in
//! the order and not a row number, rows that come or go before it do not
//! shift the pages that follow.

use crate::job::{JobEntryView, RekognitionJobTableEntry};
use crate::text::{
    bytes_of, decimal_digits, decimal_text, lemma_sorts_before_is_strict, precedes, sorts_before,
};
use vstd::prelude::*;

verus! {

/// A pagination cursor: the key of the last row of a page.
#[derive(Debug, Clone, PartialEq, Eq)]
pub struct LastEvaluatedKey {
    pub job_id: String,
    pub user_id: String,
    pub request_timestamp: u64,
}

/// Mathematical value of a [`LastEvaluatedKey`].
pub struct LastEvaluatedKeyView {
    pub job_id: Seq<char>,
    pub user_id: Seq<char>,
    pub request_timestamp: u64,
}

impl View for LastEvaluatedKey {
    type V = LastEvaluatedKeyView;

    open spec fn view(&self) -> LastEvaluatedKeyView {
        LastEvaluatedKeyView {
            job_id: self.job_id@,
            user_id: self.user_id@,
            request_timestamp: self.request_timestamp,
        }
    }
}

/// The value of a key attribute as the job store takes it: a text, or a
/// number written in decimal.
#[derive(Debug, Clone, PartialEq, Eq)]
pub enum KeyAttribute {
    S(String),
    N(String),
}

/// A key attribute under its name.
#[derive(Debug, Clone, PartialEq, Eq)]
pub struct NamedAttribute {
    pub name: String,
    pub value: KeyAttribute,
}

/// Whether `attribute` is the text `value` under `name`.
pub open spec fn is_text_attribute(
    attribute: NamedAttribute,
    name: Seq<char>,
    value: Seq<char>,
) -> bool {
    attribute.name@ == name && match attribute.value {
        KeyAttribute::S(text) => text@ == value,
        KeyAttribute::N(_) => false,
    }
}

/// Whether `attribute` is the number `value` under `name`.
pub open spec fn is_number_attribute(attribute: NamedAttribute, name: Seq<char>, value: nat) -> bool {
    attribute.name@ == name && match attribute.value {
        KeyAttribute::S(_) => false,
        KeyAttribute::N(digits) => digits@ == decimal_digits(value),
    }
}

/// Mathematical value of an optional cursor.
pub open spec fn cursor_view(cursor: Option<LastEvaluatedKey>) -> Option<LastEvaluatedKeyView> {
    match cursor {
        Some(key) => Some(key@),
        None => None,
    }
}

/// Mathematical values of a sequence of records.
pub open spec fn views_of(entries: Seq<RekognitionJobTableEntry>) -> Seq<JobEntryView> {
    entries.map_values(|entry: RekognitionJobTableEntry| entry@)
}

/// The key of a row.
pub open spec fn key_of(row: JobEntryView) -> LastEvaluatedKeyView {
    LastEvaluatedKeyView {
        job_id: row.job_id,
        user_id: row.user_id,
        request_timestamp: row.request_timestamp,
    }
}

/// Whether `row` lies after `key` in the listing: it is older, or as old
/// with a job identifier that sorts after the key's.
pub open spec fn lies_after(row: JobEntryView, key: LastEvaluatedKeyView) -> bool {
    ||| row.request_timestamp < key.request_timestamp
    ||| (row.request_timestamp == key.request_timestamp && sorts_before(
        bytes_of(key.job_id),
        bytes_of(row.job_id),
    ))
}

/// Whether `row` lies after the cursor; without a cursor every row does.
pub open spec fn lies_after_cursor(row: JobEntryView, cursor: Option<LastEvaluatedKeyView>) -> bool {
    match cursor {
        Some(key) => lies_after(row, key),
        None => true,
    }
}

/// The test for rows of `user_id`.
pub open spec fn of_user(user_id: Seq<char>) -> spec_fn(JobEntryView) -> bool {
    |row: JobEntryView| row.user_id == user_id
}

/// The rows of `user_id` in the index, in index order.
pub open spec fn rows_of_user(index: Seq<JobEntryView>, user_id: Seq<char>) -> Seq<JobEntryView> {
    index.filter(of_user(user_id))
}

/// The position of the first row that lies after the cursor; the number of
/// rows when none does.
pub open spec fn first_after(rows: Seq<JobEntryView>, cursor: Option<LastEvaluatedKeyView>) -> int
    decreases rows.len(),
{
    if rows.len() == 0 {
        0
    } else if lies_after_cursor(rows[0], cursor) {
        0
    } else {
        1 + first_after(rows.skip(1), cursor)
    }
}

/// The position at which the page after the cursor ends.
pub open spec fn page_end(
    rows: Seq<JobEntryView>,
    cursor: Option<LastEvaluatedKeyView>,
    limit: int,
) -> int {
    let start = first_after(rows, cursor);
    if start + limit < rows.len() {
        start + limit
    } else {
        rows.len() as int
    }
}

/// The page after the cursor: at most `limit` rows from the first that lies
/// after it.
pub open spec fn page_rows(
    rows: Seq<JobEntryView>,
    cursor: Option<LastEvaluatedKeyView>,
    limit: int,
) -> Seq<JobEntryView> {
    rows.subrange(first_after(rows, cursor), page_end(rows, cursor, limit))
}

/// The cursor that the page after `cursor` hands on: the key of its last
/// row if rows remain beyond it, else none.
pub open spec fn next_cursor(
    rows: Seq<JobEntryView>,
    cursor: Option<LastEvaluatedKeyView>,
    limit: int,
) -> Option<LastEvaluatedKeyView> {
    let end = page_end(rows, cursor, limit);
    if end < rows.len() {
        Some(key_of(rows[end - 1]))
    } else {
        None
    }
}

/// All rows that lie after the cursor.
pub open spec fn listing_from(rows: Seq<JobEntryView>, cursor: Option<LastEvaluatedKeyView>) -> Seq<
    JobEntryView,
> {
    rows.skip(first_after(rows, cursor))
}

/// Whether the rows stand in listing order: each lies after the key of
/// every row before it.
pub open spec fn in_listing_order(rows: Seq<JobEntryView>) -> bool {
    forall|i: int, j: int|
        0 <= i < j < rows.len() ==> lies_after(#[trigger] rows[j], key_of(#[trigger] rows[i]))
}

/// Rows of which each is strictly older than the one before stand in
/// listing order, whatever their job identifiers.
pub proof fn lemma_newest_first_is_listing_order(rows: Seq<JobEntryView>)
    requires
        forall|i: int, j: int|
            0 <= i < j < rows.len() ==> (#[trigger] rows[i]).request_timestamp > (
            #[trigger] rows[j]).request_timestamp,
    ensures
        in_listing_order(rows),
{
}

/// `first_after` is the one position before which no row lies after the
/// cursor and at which, if it is a row, that row does.
pub proof fn lemma_first_after_is(
    rows: Seq<JobEntryView>,
    cursor: Option<LastEvaluatedKeyView>,
    start: int,
)
    requires
        0 <= start <= rows.len(),
        forall|i: int| 0 <= i < start ==> !lies_after_cursor(#[trigger] rows[i], cursor),
        start < rows.len() ==> lies_after_cursor(rows[start], cursor),
    ensures
        first_after(rows, cursor) == start,
    decreases rows.len(),
{
    if rows.len() > 0 && start > 0 {
        let rest = rows.skip(1);
        assert forall|i: int| 0 <= i < start - 1 implies !lies_after_cursor(
            #[trigger] rest[i],
            cursor,
        ) by {}
        lemma_first_after_is(rest, cursor, start - 1);
    }
}

/// No row before `first_after` lies after the cursor, and the row at that
/// position, if there is one, does.
pub proof fn lemma_first_after_holds(rows: Seq<JobEntryView>, cursor: Option<LastEvaluatedKeyView>)
    ensures
        forall|i: int|
            0 <= i < first_after(rows, cursor) && i < rows.len() ==> !lies_after_cursor(
                #[trigger] rows[i],
                cursor,
            ),
        first_after(rows, cursor) < rows.len() ==> lies_after_cursor(
            rows[first_after(rows, cursor)],
            cursor,
        ),
    decreases rows.len(),
{
    if rows.len() > 0 && !lies_after_cursor(rows[0], cursor) {
        let rest = rows.skip(1);
        lemma_first_after_holds(rest, cursor);
        lemma_first_after_bounds(rest, cursor);
        assert forall|i: int|
            0 <= i < first_after(rows, cursor) && i < rows.len() implies !lies_after_cursor(
            #[trigger] rows[i],
            cursor,
        ) by {
            if i > 0 {
                assert(rows[i] == rest[i - 1]);
            }
        }
        if first_after(rows, cursor) < rows.len() {
            assert(rest[first_after(rest, cursor)] == rows[first_after(rows, cursor)]);
        }
    }
}

/// `first_after` is a position of the sequence or its length.
pub proof fn lemma_first_after_bounds(rows: Seq<JobEntryView>, cursor: Option<LastEvaluatedKeyView>)
    ensures
        0 <= first_after(rows, cursor) <= rows.len(),
    decreases rows.len(),
{
    if rows.len() > 0 && !lies_after_cursor(rows[0], cursor) {
        lemma_first_after_bounds(rows.skip(1), cursor);
    }
}

/// In listing order the rows after the key of row `j` are those behind row
/// `j`: a cursor taken from a row resumes with the row that follows it.
pub proof fn lemma_resumes_behind_row(rows: Seq<JobEntryView>, j: int)
    requires
        in_listing_order(rows),
        0 <= j < rows.len(),
    ensures
        first_after(rows, Some(key_of(rows[j]))) == j + 1,
{
    let cursor = Some(key_of(rows[j]));
    assert forall|i: int| 0 <= i < j + 1 implies !lies_after_cursor(#[trigger] rows[i], cursor) by {
        lemma_sorts_before_is_strict(bytes_of(rows[i].job_id), bytes_of(rows[j].job_id));
    }
    lemma_first_after_is(rows, cursor, j + 1);
}

/// Pages neither overlap nor leave a gap: in listing order, the rows after a
/// cursor are the page after it followed by the rows after the cursor that
/// the page hands on; a page that hands on none is the last. Within the
/// listing no row is newer than a row before it.
pub proof fn lemma_pages_cover_listing(
    rows: Seq<JobEntryView>,
    cursor: Option<LastEvaluatedKeyView>,
    limit: int,
)
    requires
        in_listing_order(rows),
        limit > 0,
    ensures
        match next_cursor(rows, cursor, limit) {
            Some(key) => listing_from(rows, cursor) == page_rows(rows, cursor, limit)
                + listing_from(rows, Some(key)) && page_rows(rows, cursor, limit).len() == limit,
            None => listing_from(rows, cursor) == page_rows(rows, cursor, limit),
        },
        forall|i: int, j: int|
            0 <= i < j < rows.len() ==> (#[trigger] rows[i]).request_timestamp >= (
            #[trigger] rows[j]).request_timestamp,
{
    lemma_first_after_bounds(rows, cursor);
    let start = first_after(rows, cursor);
    let end = page_end(rows, cursor, limit);
    if end < rows.len() {
        lemma_resumes_behind_row(rows, end - 1);
    }
}

/// A row that goes from before the place of the cursor does not shift what
/// follows: the rows after the cursor stay the same.
pub proof fn lemma_listing_ignores_removal(
    rows: Seq<JobEntryView>,
    cursor: Option<LastEvaluatedKeyView>,
    k: int,
)
    requires
        0 <= k < first_after(rows, cursor),
    ensures
        listing_from(rows.remove(k), cursor) == listing_from(rows, cursor),
{
    lemma_first_after_bounds(rows, cursor);
    let start = first_after(rows, cursor);
    let fewer = rows.remove(k);
    lemma_first_after_holds(rows, cursor);
    assert forall|i: int| 0 <= i < start - 1 implies !lies_after_cursor(
        #[trigger] fewer[i],
        cursor,
    ) by {
        if i < k {
            assert(fewer[i] == rows[i]);
        } else {
            assert(fewer[i] == rows[i + 1]);
        }
    }
    if start < rows.len() {
        assert(fewer[start - 1] == rows[start]);
    }
    lemma_first_after_is(fewer, cursor, start - 1);
    assert(fewer.skip(start - 1) =~= rows.skip(start));
}

/// A row that comes in before the place of the cursor, and does not itself
/// lie after the cursor, does not shift what follows either.
pub proof fn lemma_listing_ignores_insertion(
    rows: Seq<JobEntryView>,
    cursor: Option<LastEvaluatedKeyView>,
    k: int,
    row: JobEntryView,
)
    requires
        0 <= k <= first_after(rows, cursor),
        !lies_after_cursor(row, cursor),
    ensures
        listing_from(rows.insert(k, row), cursor) == listing_from(rows, cursor),
{
    lemma_first_after_bounds(rows, cursor);
    let start = first_after(rows, cursor);
    let more = rows.insert(k, row);
    lemma_first_after_holds(rows, cursor);
    assert forall|i: int| 0 <= i < start + 1 implies !lies_after_cursor(
        #[trigger] more[i],
        cursor,
    ) by {
        if i < k {
            assert(more[i] == rows[i]);
        } else if i > k {
            assert(more[i] == rows[i - 1]);
        }
    }
    if start < rows.len() {
        assert(more[start + 1] == rows[start]);
    }
    lemma_first_after_is(more, cursor, start + 1);
    assert(more.skip(start + 1) =~= rows.skip(start));
}

/// The rows that a listing gathers page after page, each page asked for
/// with the cursor that the page before handed on, until a page hands on
/// none or `pages` pages have been read.
pub open spec fn gathered(
    rows: Seq<JobEntryView>,
    cursor: Option<LastEvaluatedKeyView>,
    limit: int,
    pages: nat,
) -> Seq<JobEntryView>
    decreases pages,
{
    if pages == 0 {
        Seq::empty()
    } else {
        match next_cursor(rows, cursor, limit) {
            Some(key) => page_rows(rows, cursor, limit) + gathered(
                rows,
                Some(key),
                limit,
                (pages - 1) as nat,
            ),
            None => page_rows(rows, cursor, limit),
        }
    }
}

/// Read to its end, a listing gathers every row after its cursor once and
/// in order: given as many pages as there are rows left, and one more, the
/// pages together are the rows after the cursor.
pub proof fn lemma_listing_gathers_all(
    rows: Seq<JobEntryView>,
    cursor: Option<LastEvaluatedKeyView>,
    limit: int,
    pages: nat,
)
    requires
        in_listing_order(rows),
        limit > 0,
        pages > rows.len() - first_after(rows, cursor),
    ensures
        gathered(rows, cursor, limit, pages) == listing_from(rows, cursor),
    decreases pages,
{
    lemma_first_after_bounds(rows, cursor);
    lemma_pages_cover_listing(rows, cursor, limit);
    match next_cursor(rows, cursor, limit) {
        Some(key) => {
            lemma_resumes_behind_row(rows, page_end(rows, cursor, limit) - 1);
            lemma_listing_gathers_all(rows, Some(key), limit, (pages - 1) as nat);
        },
        None => {},
    }
}

/// Without a cursor a listing begins at the first row, so read to its end
/// it gathers all rows.
pub proof fn lemma_listing_from_start(rows: Seq<JobEntryView>, limit: int)
    requires
        in_listing_order(rows),
        limit > 0,
    ensures
        gathered(rows, None, limit, rows.len() + 1) == rows,
{
    lemma_listing_gathers_all(rows, None, limit, rows.len() + 1);
    assert(rows.skip(0) =~= rows);
}

impl LastEvaluatedKey {
    /// The cursor with these parts.
    pub fn new(job_id: &str, user_id: &str, request_timestamp: &u64) -> (key: Self)
        ensures
            key@ == (LastEvaluatedKeyView {
                job_id: job_id@,
                user_id: user_id@,
                request_timestamp: *request_timestamp,
            }),
    {
        Self {
            job_id: job_id.to_owned(),
            user_id: user_id.to_owned(),
            request_timestamp: *request_timestamp,
        }
    }

    /// The cursor as the job store takes it for an exclusive start key:
    /// job, user and timestamp, each under the name of its attribute.
    pub fn exclusive_start_key(&self) -> (attributes: Vec<NamedAttribute>)
        ensures
            attributes@.len() == 3,
            is_text_attribute(attributes@[0], "job_id"@, self@.job_id),
            is_text_attribute(attributes@[1], "user_id"@, self@.user_id),
            is_number_attribute(
                attributes@[2],
                "request_timestamp"@,
                self@.request_timestamp as nat,
            ),
    {
        let mut attributes: Vec<NamedAttribute> = Vec::new();
        attributes.push(
            NamedAttribute {
                name: "job_id".to_owned(),
                value: KeyAttribute::S(self.job_id.clone()),
            },
        );
        attributes.push(
            NamedAttribute {
                name: "user_id".to_owned(),
                value: KeyAttribute::S(self.user_id.clone()),
            },
        );
        attributes.push(
            NamedAttribute {
                name: "request_timestamp".to_owned(),
                value: KeyAttribute::N(decimal_text(self.request_timestamp)),
            },
        );
        attributes
    }

    /// Whether `entry` lies after this key in the listing.
    pub fn is_before(&self, entry: &RekognitionJobTableEntry) -> (yes: bool)
        ensures
            yes == lies_after(entry@, self@),
    {
        entry.request_timestamp < self.request_timestamp || (entry.request_timestamp
            == self.request_timestamp && precedes(self.job_id.as_str(), entry.job_id.as_str()))
    }
}

impl RekognitionJobTableEntry {
    /// The key of this record in the listing.
    pub fn key(&self) -> (key: LastEvaluatedKey)
        ensures
            key@ == key_of(self@),
    {
        LastEvaluatedKey::new(
            self.job_id.as_str(),
            self.user_id.as_str(),
            &self.request_timestamp,
        )
    }
}

/// One page of the jobs of `user_id`, read from the listing index
/// `entries`: the rows of the user that lie after `last_evaluated_key` (all
/// of them if there is none), at most `limit` of them, in index order; and
/// the cursor for the page that follows, present exactly when rows of the
/// user remain beyond this page.
pub fn query_entries(
    entries: &Vec<RekognitionJobTableEntry>,
    user_id: &str,
    last_evaluated_key: Option<LastEvaluatedKey>,
    limit: usize,
) -> (listed: (Vec<RekognitionJobTableEntry>, Option<LastEvaluatedKey>))
    requires
        limit > 0,
    ensures
        views_of(listed.0@) == page_rows(
            rows_of_user(views_of(entries@), user_id@),
            cursor_view(last_evaluated_key),
            limit as int,
        ),
        cursor_view(listed.1) == next_cursor(
            rows_of_user(views_of(entries@), user_id@),
            cursor_view(last_evaluated_key),
            limit as int,
        ),
{
    let ghost index = views_of(entries@);
    let ghost cursor = cursor_view(last_evaluated_key);
    let ghost mut rows: Seq<JobEntryView> = Seq::empty();
    let ghost mut start: int = 0;
    let mut page: Vec<RekognitionJobTableEntry> = Vec::new();
    let mut started = false;
    let mut more = false;
    let mut i: usize = 0;
    proof {
        reveal(Seq::filter);
    }
    // `rows` are the rows of the user met so far; the page begins at row `start`
    while i < entries.len() && !more
        invariant
            i <= entries.len(),
            limit > 0,
            index == views_of(entries@),
            cursor == cursor_view(last_evaluated_key),
            rows == rows_of_user(index.take(i as int), user_id@),
            forall|k: int|
                0 <= k < (if started {
                    start
                } else {
                    rows.len() as int
                }) ==> !lies_after_cursor(#[trigger] rows[k], cursor),
            started ==> 0 <= start < rows.len() && lies_after_cursor(rows[start], cursor),
            started ==> views_of(page@) == rows.subrange(
                start,
                if more {
                    rows.len() - 1
                } else {
                    rows.len() as int
                },
            ),
            !started ==> page@.len() == 0 && !more,
            page@.len() <= limit,
            more ==> started && page@.len() == limit,
        decreases entries.len() - i,
    {
        let entry = &entries[i];
        let ghost before = rows;
        let ghost listed = views_of(page@);
        proof {
            reveal(Seq::filter);
            assert(index.take(i + 1).drop_last() =~= index.take(i as int));
        }
        if *entry.user_id.as_str() == *user_id {
            proof {
                rows = before.push(entry@);
            }
            if !started {
                let after = match &last_evaluated_key {
                    Some(key) => key.is_before(entry),
                    None => true,
                };
                if after {
                    started = true;
                    proof {
                        start = before.len() as int;
                    }
                    page.push(entry.duplicate());
                }
            } else if page.len() < limit {
                page.push(entry.duplicate());
                proof {
                    assert(views_of(page@) =~= listed.push(entry@));
                }
            } else {
                more = true;
            }
        }
        i += 1;
    }
    let next = if more {
        Some(page[page.len() - 1].key())
    } else {
        None
    };
    proof {
        let full = rows_of_user(index, user_id@);
        let listed = views_of(page@);
        assert(index =~= index.take(i as int) + index.skip(i as int));
        Seq::<JobEntryView>::filter_distributes_over_add(
            index.take(i as int),
            index.skip(i as int),
            of_user(user_id@),
        );
        if started {
            lemma_first_after_is(full, cursor, start);
            if more {
                assert(page@[page@.len() - 1]@ == listed[limit - 1]);
            }
        } else {
            lemma_first_after_is(full, cursor, full.len() as int);
        }
    }
    (page, next)
}

} // verus!
