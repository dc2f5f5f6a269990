//! Laws of paging: a caller who follows the cursors sees every row that the
//! filter asks for, and none twice.

use crate::database::{in_id_order, is_answer, law_listing_asks_for, legible, select, selects, well_keyed, Table};
use crate::id_gen::{law_ids_sort_by_creation_time, subject_id_text, ulid_millis};
use crate::row::{fetched_with, subject_in, AttachmentReader, FetchedView, RowView};
use crate::store::{page_limit, page_of, rows_of_page, wanted_subjects};
use crate::subject::{ErrorView, FilterView, SubjectView};
use crate::text::{lemma_less_irreflexive, lemma_less_transitive, text_less};
use vstd::prelude::*;

verus! {

/// The rows of an answer as they are read, all of which could be.
pub open spec fn read_rows(reader: AttachmentReader, rows: Seq<RowView>) -> Seq<
    Result<FetchedView, Seq<char>>,
> {
    rows.map_values(|row: RowView| Ok::<FetchedView, Seq<char>>(fetched_with(reader, row)))
}

/// The rows of an answer that belong to its page: all but the one that was asked
/// for in excess.
pub open spec fn own_rows(filter: FilterView, rows: Seq<RowView>) -> Seq<RowView> {
    if rows.len() > page_limit(filter.limit) {
        rows.take(page_limit(filter.limit))
    } else {
        rows
    }
}

/// The cursor to the page after this one, if there is one.
pub open spec fn next_cursor(filter: FilterView, rows: Seq<RowView>) -> Option<Seq<char>> {
    if rows.len() > page_limit(filter.limit) {
        Some(rows[page_limit(filter.limit) - 1].id)
    } else {
        None
    }
}

/// The same filter with a cursor.
pub open spec fn continued(filter: FilterView, cursor: Option<Seq<char>>) -> FilterView {
    FilterView { cursor, ..filter }
}

/// The filter of page `k` of a walk: that of the walk on the first page, and
/// after that with the cursor that the page before gave.
pub open spec fn page_filter(filter: FilterView, pages: Seq<Seq<RowView>>, k: int) -> FilterView {
    if k <= 0 {
        filter
    } else {
        continued(filter, next_cursor(filter, pages[k - 1]))
    }
}

/// Whether `pages` are the answers that a caller gets who starts with `filter`
/// and follows the cursors until there is none.
pub open spec fn is_walk(table: Table, filter: FilterView, pages: Seq<Seq<RowView>>) -> bool {
    &&& pages.len() > 0
    &&& forall|k: int|
        0 <= k < pages.len() ==> is_answer(
            table,
            page_filter(filter, pages, k),
            #[trigger] pages[k],
        )
    &&& forall|k: int|
        0 <= k < pages.len() ==> (next_cursor(filter, #[trigger] pages[k]) is None <==> k
            == pages.len() - 1)
}

/// Whether row `i` of page `k` is the row with the given id.
pub open spec fn shows(
    filter: FilterView,
    pages: Seq<Seq<RowView>>,
    k: int,
    i: int,
    id: Seq<char>,
) -> bool {
    &&& 0 <= k < pages.len()
    &&& 0 <= i < own_rows(filter, pages[k]).len()
    &&& own_rows(filter, pages[k])[i].id == id
}

/// The cursor that a listing returns is the id of the last row of its page, and
/// comes if and only if the database holds more rows than the page; the page's
/// subjects are those of its own rows that pass the filter.
pub proof fn law_page_of_an_answer(
    reader: AttachmentReader,
    filter: FilterView,
    rows: Seq<RowView>,
)
    ensures
        rows_of_page(filter, read_rows(reader, rows)) == read_rows(reader, own_rows(filter, rows)),
        page_of(filter, read_rows(reader, rows)) matches Ok(page) ==> page.1 == next_cursor(filter, rows)
            && wanted_subjects(filter, read_rows(reader, own_rows(filter, rows))) == Ok::<
            Seq<SubjectView>,
            ErrorView,
        >(page.0),
{
    let n = page_limit(filter.limit);
    if rows.len() > n {
        assert(read_rows(reader, rows).take(n) == read_rows(reader, rows.take(n)));
    }
}

/// A listing of a table whose rows all hold subjects succeeds.
pub proof fn law_listing_succeeds(
    table: Table,
    reader: AttachmentReader,
    filter: FilterView,
    rows: Seq<RowView>,
)
    requires
        legible(table, reader),
        is_answer(table, filter, rows),
    ensures
        page_of(filter, read_rows(reader, rows)) is Ok,
{
    law_page_of_an_answer(reader, filter, rows);
    let own = own_rows(filter, rows);
    assert forall|i: int| 0 <= i < own.len() implies subject_in(
        fetched_with(reader, #[trigger] own[i]),
    ) is Ok by {
        lemma_own_row(filter, rows, i);
        assert(select(table, rows[i].id) == Some(rows[i]));
        assert(table.contains_key(rows[i].id));
    }
    lemma_wanted_succeeds(reader, filter, own);
}

proof fn lemma_wanted_succeeds(reader: AttachmentReader, filter: FilterView, rows: Seq<RowView>)
    requires
        forall|i: int| 0 <= i < rows.len() ==> subject_in(
            fetched_with(reader, #[trigger] rows[i]),
        ) is Ok,
    ensures
        wanted_subjects(filter, read_rows(reader, rows)) is Ok,
    decreases rows.len(),
{
    if rows.len() > 0 {
        assert(read_rows(reader, rows).drop_last() == read_rows(reader, rows.drop_last()));
        lemma_wanted_succeeds(reader, filter, rows.drop_last());
        assert(subject_in(fetched_with(reader, rows[rows.len() - 1])) is Ok);
    }
}

/// The subjects of a page come in the order of their ids, none twice.
pub proof fn law_page_is_in_id_order(
    table: Table,
    reader: AttachmentReader,
    filter: FilterView,
    rows: Seq<RowView>,
)
    requires
        is_answer(table, filter, rows),
        page_of(filter, read_rows(reader, rows)) is Ok,
    ensures
        forall|a: int, b: int|
            0 <= a < b < page_of(filter, read_rows(reader, rows))->Ok_0.0.len() ==> text_less(
                (#[trigger] page_of(filter, read_rows(reader, rows))->Ok_0.0[a]).id,
                (#[trigger] page_of(filter, read_rows(reader, rows))->Ok_0.0[b]).id,
            ),
{
    law_page_of_an_answer(reader, filter, rows);
    let own = own_rows(filter, rows);
    assert forall|i: int, j: int| 0 <= i < j < own.len() implies text_less(
        (#[trigger] own[i]).id,
        (#[trigger] own[j]).id,
    ) by {
        lemma_own_row(filter, rows, i);
        lemma_own_row(filter, rows, j);
    }
    lemma_wanted_in_order(reader, filter, own);
}

proof fn lemma_wanted_in_order(reader: AttachmentReader, filter: FilterView, rows: Seq<RowView>)
    requires
        in_id_order(rows),
        wanted_subjects(filter, read_rows(reader, rows)) is Ok,
    ensures
        ({
            let list = wanted_subjects(filter, read_rows(reader, rows))->Ok_0;
            &&& forall|a: int, b: int|
                0 <= a < b < list.len() ==> text_less(
                    (#[trigger] list[a]).id,
                    (#[trigger] list[b]).id,
                )
            &&& forall|a: int|
                0 <= a < list.len() ==> exists|i: int|
                    0 <= i < rows.len() && (#[trigger] rows[i]).id == (#[trigger] list[a]).id
        }),
    decreases rows.len(),
{
    if rows.len() > 0 {
        let front = rows.drop_last();
        assert(read_rows(reader, rows).drop_last() == read_rows(reader, front));
        assert(in_id_order(front));
        lemma_wanted_in_order(reader, filter, front);
        let before = wanted_subjects(filter, read_rows(reader, front))->Ok_0;
        let list = wanted_subjects(filter, read_rows(reader, rows))->Ok_0;
        let n = rows.len() - 1;
        assert forall|a: int| 0 <= a < list.len() implies exists|i: int|
            0 <= i < rows.len() && (#[trigger] rows[i]).id == (#[trigger] list[a]).id by {
            if a < before.len() {
                assert(list[a] == before[a]);
                let i = choose|i: int| 0 <= i < front.len() && (#[trigger] front[i]).id == before[a].id;
                assert(rows[i].id == list[a].id);
            } else {
                assert(rows[n].id == list[a].id);
            }
        }
        assert forall|a: int, b: int| 0 <= a < b < list.len() implies text_less(
            (#[trigger] list[a]).id,
            (#[trigger] list[b]).id,
        ) by {
            assert(list[a] == before[a]);
            if b < before.len() {
                assert(list[b] == before[b]);
            } else {
                let i = choose|i: int| 0 <= i < front.len() && (#[trigger] front[i]).id == before[a].id;
                assert(rows[i].id == list[a].id);
                assert(rows[n].id == list[b].id);
            }
        }
    }
}

/// A listing comes in the order of creation, as far as ids were made by this
/// backend: no row was made in a later millisecond than one behind it.
pub proof fn law_listing_is_in_creation_order(
    table: Table,
    filter: FilterView,
    rows: Seq<RowView>,
    i: int,
    j: int,
    earlier: u128,
    later: u128,
)
    requires
        is_answer(table, filter, rows),
        0 <= i < j < rows.len(),
        rows[i].id == subject_id_text(earlier),
        rows[j].id == subject_id_text(later),
    ensures
        ulid_millis(earlier) <= ulid_millis(later),
{
    if ulid_millis(later) < ulid_millis(earlier) {
        law_ids_sort_by_creation_time(later, earlier);
        lemma_less_transitive(rows[i].id, rows[j].id, rows[i].id);
        lemma_less_irreflexive(rows[i].id);
    }
}

/// A row that the filter asks for is on the page or is asked for by the filter
/// with the next cursor, and never both; without a next cursor it is on the
/// page.
pub proof fn law_next_page_takes_the_rest(
    table: Table,
    filter: FilterView,
    rows: Seq<RowView>,
    id: Seq<char>,
)
    requires
        well_keyed(table),
        is_answer(table, filter, rows),
        table.contains_key(id),
        selects(filter, table[id]),
    ensures
        match next_cursor(filter, rows) {
            Some(cursor) => own_rows(filter, rows).contains(table[id]) <==> !selects(
                continued(filter, Some(cursor)),
                table[id],
            ),
            None => own_rows(filter, rows).contains(table[id]),
        },
{
    let n = page_limit(filter.limit);
    let row = table[id];
    law_listing_asks_for(filter, row);
    law_listing_asks_for(continued(filter, next_cursor(filter, rows)), row);
    if rows.len() > n {
        let own = own_rows(filter, rows);
        let cursor = rows[n - 1].id;
        if own.contains(row) {
            let i = choose|i: int| 0 <= i < own.len() && own[i] == row;
            assert(rows[i] == row);
            if i < n - 1 && text_less(cursor, id) {
                lemma_less_transitive(cursor, id, cursor);
            }
            lemma_less_irreflexive(cursor);
        } else if rows.contains(row) {
            let i = choose|i: int| 0 <= i < rows.len() && rows[i] == row;
            if i < n {
                assert(own[i] == row);
            }
            assert(i == n);
            assert(text_less(rows[n - 1].id, rows[n].id));
        } else {
            assert(text_less(rows[n - 1].id, rows[n].id));
            lemma_less_transitive(cursor, rows[n].id, id);
        }
    }
}

/// Every page starts behind where the page before ended.
pub proof fn law_pages_go_forward(
    table: Table,
    filter: FilterView,
    pages: Seq<Seq<RowView>>,
    j: int,
    a: int,
    k: int,
    b: int,
)
    requires
        is_walk(table, filter, pages),
        0 <= j < k < pages.len(),
        0 <= a < own_rows(filter, pages[j]).len(),
        0 <= b < pages[k].len(),
    ensures
        text_less(own_rows(filter, pages[j])[a].id, pages[k][b].id),
    decreases k - j,
{
    let last = page_limit(filter.limit) - 1;
    let before = pages[k - 1];
    assert(next_cursor(filter, before) == Some(before[last].id));
    lemma_answered_row(table, page_filter(filter, pages, k), pages[k], b);
    law_listing_asks_for(page_filter(filter, pages, k), pages[k][b]);
    lemma_own_row(filter, pages[j], a);
    if j == k - 1 {
        if a < last {
            assert(in_id_order(before));
            lemma_less_transitive(before[a].id, before[last].id, pages[k][b].id);
        }
    } else {
        law_pages_go_forward(table, filter, pages, j, a, k - 1, last);
        lemma_less_transitive(pages[j][a].id, before[last].id, pages[k][b].id);
    }
}

/// A walk over the pages of a listing shows every row that the filter asks for.
pub proof fn law_walk_shows_every_row(
    table: Table,
    filter: FilterView,
    pages: Seq<Seq<RowView>>,
    id: Seq<char>,
)
    requires
        well_keyed(table),
        is_walk(table, filter, pages),
        table.contains_key(id),
        selects(filter, table[id]),
    ensures
        exists|k: int, i: int| #[trigger] shows(filter, pages, k, i, id),
{
    lemma_walk_from(table, filter, pages, id, 0);
}

proof fn lemma_walk_from(
    table: Table,
    filter: FilterView,
    pages: Seq<Seq<RowView>>,
    id: Seq<char>,
    k: int,
)
    requires
        well_keyed(table),
        is_walk(table, filter, pages),
        table.contains_key(id),
        0 <= k < pages.len(),
        selects(page_filter(filter, pages, k), table[id]),
    ensures
        exists|j: int, i: int| #[trigger] shows(filter, pages, j, i, id),
    decreases pages.len() - k,
{
    let here = page_filter(filter, pages, k);
    assert(is_answer(table, here, pages[k]));
    law_next_page_takes_the_rest(table, here, pages[k], id);
    assert(own_rows(here, pages[k]) == own_rows(filter, pages[k]));
    let own = own_rows(filter, pages[k]);
    if own.contains(table[id]) {
        let i = choose|i: int| 0 <= i < own.len() && own[i] == table[id];
        assert(shows(filter, pages, k, i, id));
    } else {
        assert(next_cursor(filter, pages[k]) == next_cursor(here, pages[k]));
        assert(next_cursor(filter, pages[k]) is Some);
        assert(continued(here, next_cursor(here, pages[k])) == page_filter(filter, pages, k + 1));
        lemma_walk_from(table, filter, pages, id, k + 1);
    }
}

/// A walk over the pages of a listing shows no row twice.
pub proof fn law_walk_shows_no_row_twice(
    table: Table,
    filter: FilterView,
    pages: Seq<Seq<RowView>>,
    id: Seq<char>,
    j: int,
    a: int,
    k: int,
    b: int,
)
    requires
        is_walk(table, filter, pages),
        shows(filter, pages, j, a, id),
        shows(filter, pages, k, b, id),
    ensures
        j == k,
        a == b,
{
    lemma_own_row(filter, pages[j], a);
    lemma_own_row(filter, pages[k], b);
    lemma_less_irreflexive(id);
    if j < k {
        law_pages_go_forward(table, filter, pages, j, a, k, b);
    } else if k < j {
        law_pages_go_forward(table, filter, pages, k, b, j, a);
    } else {
        assert(is_answer(table, page_filter(filter, pages, j), pages[j]));
        lemma_no_id_twice(pages[j], a, b);
    }
}

proof fn lemma_own_row(filter: FilterView, rows: Seq<RowView>, i: int)
    requires
        0 <= i < own_rows(filter, rows).len(),
    ensures
        i < rows.len(),
        own_rows(filter, rows)[i] == rows[i],
{
}

proof fn lemma_no_id_twice(rows: Seq<RowView>, a: int, b: int)
    requires
        in_id_order(rows),
        0 <= a < rows.len(),
        0 <= b < rows.len(),
        rows[a].id == rows[b].id,
    ensures
        a == b,
{
    lemma_less_irreflexive(rows[a].id);
}

/// A walk over the pages of a listing shows nothing but rows of the table that
/// the filter asks for.
pub proof fn law_walk_shows_only_rows_asked_for(
    table: Table,
    filter: FilterView,
    pages: Seq<Seq<RowView>>,
    k: int,
    i: int,
)
    requires
        is_walk(table, filter, pages),
        0 <= k < pages.len(),
        0 <= i < own_rows(filter, pages[k]).len(),
    ensures
        ({
            let row = own_rows(filter, pages[k])[i];
            select(table, row.id) == Some(row) && selects(filter, row)
        }),
    decreases k,
{
    lemma_own_row(filter, pages[k], i);
    let row = pages[k][i];
    lemma_answered_row(table, page_filter(filter, pages, k), pages[k], i);
    law_listing_asks_for(page_filter(filter, pages, k), row);
    law_listing_asks_for(filter, row);
    if k > 0 && filter.cursor is Some {
        let last = page_limit(filter.limit) - 1;
        let before = pages[k - 1];
        assert(next_cursor(filter, before) == Some(before[last].id));
        lemma_own_row(filter, before, last);
        law_walk_shows_only_rows_asked_for(table, filter, pages, k - 1, last);
        law_listing_asks_for(filter, before[last]);
        lemma_less_transitive(filter.cursor->0, before[last].id, row.id);
    }
}

proof fn lemma_answered_row(table: Table, filter: FilterView, rows: Seq<RowView>, i: int)
    requires
        is_answer(table, filter, rows),
        0 <= i < rows.len(),
    ensures
        select(table, rows[i].id) == Some(rows[i]),
        selects(filter, rows[i]),
{
}

} // verus!
