//! Column widths of CSS tables: how a table gathers the widths its column
//! groups and rows ask for.

use vstd::prelude::*;
use crate::geometry::Au;

verus! {

/// The CSS `table-layout` algorithms.
#[derive(Clone, Copy, Debug, PartialEq, Eq, Structural)]
pub enum TableLayout {
    FixedLayout,
    AutoLayout,
}

/// Sum of a list of widths.
pub open spec fn sum_widths(s: Seq<Au>) -> int
    decreases s.len(),
{
    if s.len() == 0 {
        0
    } else {
        sum_widths(s.drop_last()) + s.last().0
    }
}

/// `widths`, each raised to the width at the same place in `kid` where that
/// is larger.
pub open spec fn widened(widths: Seq<Au>, kid: Seq<Au>) -> Seq<Au> {
    Seq::new(
        widths.len(),
        |i: int|
            if i < kid.len() && widths[i].0 < kid[i].0 {
                kid[i]
            } else {
                widths[i]
            },
    )
}

pub proof fn lemma_sum_widths_bound(s: Seq<Au>)
    ensures
        -(s.len() * 0x8000_0000) <= sum_widths(s) <= s.len() * 0x8000_0000,
    decreases s.len(),
{
    if s.len() > 0 {
        lemma_sum_widths_bound(s.drop_last());
    }
}

/// The widths one row (or row group) asks for, column by column.
#[derive(Debug)]
pub struct RowWidths {
    pub col_widths: Vec<Au>,
    pub col_min_widths: Vec<Au>,
    pub col_pref_widths: Vec<Au>,
}

/// A child of a table flow, as far as column widths go.
#[derive(Debug)]
pub enum TableChild {
    /// A column group and the widths it specifies.
    ColGroup(Vec<Au>),
    /// A row or row group.
    Row(RowWidths),
}

/// What a table knows of its columns part way through its children.
pub struct ColumnState {
    pub widths: Seq<Au>,
    pub min_widths: Seq<Au>,
    pub pref_widths: Seq<Au>,
    pub min_width: int,
    pub pref_width: int,
    pub did_first_row: bool,
}

/// The entries of `s` from index `n` on; none where `s` is shorter.
pub open spec fn tail_from(s: Seq<Au>, n: int) -> Seq<Au> {
    if n < s.len() {
        s.subrange(n, s.len() as int)
    } else {
        Seq::empty()
    }
}

/// The entries of `s` from index `n` up to index `m`; none where `m` is not
/// past `n`.
pub open spec fn entries_between(s: Seq<Au>, n: int, m: int) -> Seq<Au> {
    if n < m {
        s.subrange(n, m)
    } else {
        Seq::empty()
    }
}

/// Under fixed layout the first row fills in the columns left unspecified
/// (width zero).
pub open spec fn fill_unspecified(widths: Seq<Au>, row: Seq<Au>) -> Seq<Au> {
    Seq::new(
        widths.len(),
        |i: int|
            if i < row.len() && widths[i].0 == 0 {
                row[i]
            } else {
                widths[i]
            },
    )
}

/// The column state after one more child.
pub open spec fn column_step(st: ColumnState, kid: TableChild, layout: TableLayout) -> ColumnState {
    match kid {
        TableChild::ColGroup(w) => {
            let widths = st.widths + w@;
            ColumnState { widths, min_widths: widths, pref_widths: widths, ..st }
        },
        TableChild::Row(r) => match layout {
            TableLayout::FixedLayout => {
                let filled = if st.did_first_row {
                    st.widths
                } else {
                    fill_unspecified(st.widths, r.col_widths@)
                };
                ColumnState {
                    widths: filled + tail_from(r.col_widths@, st.widths.len() as int),
                    did_first_row: true,
                    ..st
                }
            },
            TableLayout::AutoLayout => {
                let n = st.min_widths.len() as int;
                let mins = widened(st.min_widths, r.col_min_widths@) + tail_from(
                    r.col_min_widths@,
                    n,
                );
                let prefs = widened(st.pref_widths, r.col_pref_widths@) + entries_between(
                    r.col_pref_widths@,
                    n,
                    r.col_min_widths@.len() as int,
                );
                let added = if n < r.col_min_widths@.len() {
                    r.col_min_widths@.len() - n
                } else {
                    0
                };
                ColumnState {
                    widths: st.widths + Seq::new(added as nat, |i: int| Au(0)),
                    min_widths: mins,
                    pref_widths: prefs,
                    min_width: sum_widths(mins),
                    pref_width: sum_widths(prefs),
                    did_first_row: st.did_first_row,
                }
            },
        },
    }
}

/// Whether one more child can be taken in: under automatic layout its rows
/// give a preferred width for each column they give a minimum width for,
/// and the sums of the widths are lengths.
pub open spec fn column_step_fits(st: ColumnState, kid: TableChild, layout: TableLayout) -> bool {
    match kid {
        TableChild::ColGroup(_) => true,
        TableChild::Row(r) => match layout {
            TableLayout::FixedLayout => true,
            TableLayout::AutoLayout => {
                let n = st.min_widths.len() as int;
                let mins = widened(st.min_widths, r.col_min_widths@);
                let prefs = widened(st.pref_widths, r.col_pref_widths@);
                &&& st.min_widths.len() == st.pref_widths.len()
                &&& r.col_pref_widths@.len() >= r.col_min_widths@.len()
                &&& i32::MIN <= sum_widths(mins) <= i32::MAX
                &&& i32::MIN <= sum_widths(prefs) <= i32::MAX
                &&& i32::MIN <= sum_widths(mins + tail_from(r.col_min_widths@, n)) <= i32::MAX
                &&& i32::MIN <= sum_widths(
                    prefs + entries_between(r.col_pref_widths@, n, r.col_min_widths@.len() as int),
                ) <= i32::MAX
            },
        },
    }
}

/// The column state after all of `kids`, in order.
pub open spec fn columns_after(st: ColumnState, kids: Seq<TableChild>, layout: TableLayout) -> ColumnState
    decreases kids.len(),
{
    if kids.len() == 0 {
        st
    } else {
        columns_after(column_step(st, kids[0], layout), kids.drop_first(), layout)
    }
}

/// Whether every child of `kids` can be taken in, in order.
pub open spec fn columns_fit(st: ColumnState, kids: Seq<TableChild>, layout: TableLayout) -> bool
    decreases kids.len(),
{
    if kids.len() == 0 {
        true
    } else {
        column_step_fits(st, kids[0], layout) && columns_fit(
            column_step(st, kids[0], layout),
            kids.drop_first(),
            layout,
        )
    }
}

/// Appends to `dst` the entries of `src` from index `from` on.
fn append_from(dst: &mut Vec<Au>, src: &Vec<Au>, from: usize)
    ensures
        final(dst)@ == old(dst)@ + tail_from(src@, from as int),
{
    if from >= src.len() {
        assert(old(dst)@ + tail_from(src@, from as int) =~= old(dst)@);
        return;
    }
    let ghost start = dst@;
    let mut i: usize = from;
    while i < src.len()
        invariant
            from <= i <= src@.len(),
            dst@ == start + src@.subrange(from as int, i as int),
        decreases src@.len() - i,
    {
        dst.push(src[i]);
        i = i + 1;
        assert(dst@ =~= start + src@.subrange(from as int, i as int));
    }
}

/// Fills the unspecified (zero) widths of `widths` from `row`.
fn fill_unspecified_widths(widths: &mut Vec<Au>, row: &Vec<Au>)
    ensures
        final(widths)@ == fill_unspecified(old(widths)@, row@),
{
    let ghost start = widths@;
    let ghost target = fill_unspecified(start, row@);
    let mut i: usize = 0;
    while i < widths.len()
        invariant
            widths@.len() == start.len(),
            i <= start.len(),
            target == fill_unspecified(start, row@),
            widths@ == target.take(i as int) + start.skip(i as int),
        decreases start.len() - i,
    {
        if i < row.len() && widths[i].0 == 0 {
            widths.set(i, row[i]);
        }
        i = i + 1;
        assert(widths@ =~= target.take(i as int) + start.skip(i as int));
    }
    assert(widths@ =~= target);
}

/// Number of unspecified (zero) widths in `s`.
pub open spec fn count_unspecified(s: Seq<Au>) -> nat
    decreases s.len(),
{
    if s.len() == 0 {
        0
    } else {
        count_unspecified(s.drop_last()) + if s.last().0 == 0 {
            1nat
        } else {
            0nat
        }
    }
}

/// `a / b` rounded toward zero, as machine division does.
pub open spec fn div_toward_zero(a: int, b: int) -> int {
    if a >= 0 {
        a / b
    } else {
        -((-a) / b)
    }
}

/// `a / b`, for a positive `b`, rounded to the nearest integer, halves away
/// from zero.
pub open spec fn round_div(a: int, b: int) -> int {
    if a >= 0 {
        (2 * a + b) / (2 * b)
    } else {
        -((-2 * a + b) / (2 * b))
    }
}

/// `x` held within the range of a length.
pub open spec fn clamp_i32(x: int) -> int {
    if x > i32::MAX {
        i32::MAX as int
    } else if x < i32::MIN {
        i32::MIN as int
    } else {
        x
    }
}

/// `w` scaled by `content / total`, rounded to the nearest unit and held
/// within the range of a length. Where `total` is zero the ratio is
/// unbounded, and a non-zero width goes to the largest length of its sign.
pub open spec fn scale_width(w: int, content: int, total: int) -> int {
    if total == 0 {
        if w > 0 {
            i32::MAX as int
        } else if w < 0 {
            i32::MIN as int
        } else {
            0
        }
    } else if total > 0 {
        clamp_i32(round_div(w * content, total))
    } else {
        clamp_i32(round_div(-(w * content), -total))
    }
}

/// Column widths after fixed layout has shared out a content width of
/// `content`: where every column is specified and they leave room, each
/// grows in proportion; where some are unspecified, those share the room
/// left equally; otherwise nothing changes.
pub open spec fn distributed(widths: Seq<Au>, content: int) -> Seq<Au> {
    let total = sum_widths(widths);
    let unspecified = count_unspecified(widths);
    if total < content && unspecified == 0 {
        Seq::new(widths.len(), |i: int| Au(scale_width(widths[i].0 as int, content, total) as i32))
    } else if unspecified != 0 {
        let extra = div_toward_zero(content - total, unspecified as int);
        Seq::new(widths.len(), |i: int| if widths[i].0 == 0 { Au(extra as i32) } else { widths[i] })
    } else {
        widths
    }
}

/// The larger of two optional widths; an absent one yields to the other.
pub open spec fn larger(a: Option<Au>, b: Option<Au>) -> Option<Au> {
    match (a, b) {
        (Some(x), Some(y)) => Some(
            if x.0 >= y.0 {
                x
            } else {
                y
            },
        ),
        (Some(x), None) => Some(x),
        (None, y) => y,
    }
}

/// The width at place `j` of `s`, where `s` has one.
pub open spec fn width_at(s: Seq<Au>, j: int) -> Option<Au> {
    if 0 <= j < s.len() {
        Some(s[j])
    } else {
        None
    }
}

/// The largest width at place `j` among the lists that reach it.
pub open spec fn column_max(lists: Seq<Seq<Au>>, j: int) -> Option<Au>
    decreases lists.len(),
{
    if lists.len() == 0 {
        None
    } else {
        larger(width_at(lists[0], j), column_max(lists.drop_first(), j))
    }
}

/// The length of the longest of `lists`, or `n` if that is longer.
pub open spec fn widest(lists: Seq<Seq<Au>>, n: nat) -> nat
    decreases lists.len(),
{
    if lists.len() == 0 {
        n
    } else {
        widest(
            lists.drop_first(),
            if lists[0].len() > n {
                lists[0].len()
            } else {
                n
            },
        )
    }
}

pub open spec fn is_row(kid: TableChild) -> bool {
    kid matches TableChild::Row(r) && r.col_pref_widths@.len() == r.col_min_widths@.len()
}

pub open spec fn row_mins(kid: TableChild) -> Seq<Au> {
    match kid {
        TableChild::Row(r) => r.col_min_widths@,
        TableChild::ColGroup(w) => w@,
    }
}

pub open spec fn row_prefs(kid: TableChild) -> Seq<Au> {
    match kid {
        TableChild::Row(r) => r.col_pref_widths@,
        TableChild::ColGroup(w) => w@,
    }
}

pub open spec fn mins_of(kids: Seq<TableChild>) -> Seq<Seq<Au>> {
    kids.map_values(|k: TableChild| row_mins(k))
}

pub open spec fn prefs_of(kids: Seq<TableChild>) -> Seq<Seq<Au>> {
    kids.map_values(|k: TableChild| row_prefs(k))
}

/// Widening a list by a row and taking in the row's further places gives,
/// at each place, the larger of the two widths there.
pub proof fn lemma_merge_at(m: Seq<Au>, r: Seq<Au>, j: int)
    ensures
        (widened(m, r) + tail_from(r, m.len() as int)).len() == if r.len() > m.len() {
            r.len()
        } else {
            m.len()
        },
        width_at(widened(m, r) + tail_from(r, m.len() as int), j) == larger(
            width_at(m, j),
            width_at(r, j),
        ),
{
}

proof fn lemma_widest_at_least(lists: Seq<Seq<Au>>, n: nat)
    ensures
        widest(lists, n) >= n,
    decreases lists.len(),
{
    if lists.len() > 0 {
        let n2 = if lists[0].len() > n {
            lists[0].len()
        } else {
            n
        };
        lemma_widest_at_least(lists.drop_first(), n2);
    }
}

proof fn lemma_auto_rows(st: ColumnState, kids: Seq<TableChild>)
    requires
        st.min_widths.len() == st.pref_widths.len(),
        forall|i: int| 0 <= i < kids.len() ==> is_row(#[trigger] kids[i]),
    ensures
        ({
            let end = columns_after(st, kids, TableLayout::AutoLayout);
            let n = widest(mins_of(kids), st.min_widths.len());
            &&& end.min_widths.len() == n
            &&& end.pref_widths.len() == n
            &&& end.widths == st.widths + Seq::new(
                (n - st.min_widths.len()) as nat,
                |i: int| Au(0),
            )
            &&& forall|j: int|
                0 <= j < n ==> Some(#[trigger] end.min_widths[j]) == larger(
                    width_at(st.min_widths, j),
                    column_max(mins_of(kids), j),
                )
            &&& forall|j: int|
                0 <= j < n ==> Some(#[trigger] end.pref_widths[j]) == larger(
                    width_at(st.pref_widths, j),
                    column_max(prefs_of(kids), j),
                )
        }),
    decreases kids.len(),
{
    if kids.len() == 0 {
        assert(st.widths + Seq::new(0nat, |i: int| Au(0)) =~= st.widths);
    } else {
        let k = kids[0];
        assert(is_row(kids[0]));
        let r = k->Row_0;
        let n0 = st.min_widths.len() as int;
        let next = column_step(st, k, TableLayout::AutoLayout);
        assert(entries_between(r.col_pref_widths@, n0, r.col_min_widths@.len() as int)
            =~= tail_from(r.col_pref_widths@, n0));
        assert forall|j: int| #[trigger] width_at(next.min_widths, j) == larger(
            width_at(st.min_widths, j),
            width_at(r.col_min_widths@, j),
        ) by {
            lemma_merge_at(st.min_widths, r.col_min_widths@, j);
        }
        assert forall|j: int| #[trigger] width_at(next.pref_widths, j) == larger(
            width_at(st.pref_widths, j),
            width_at(r.col_pref_widths@, j),
        ) by {
            lemma_merge_at(st.pref_widths, r.col_pref_widths@, j);
        }
        lemma_merge_at(st.min_widths, r.col_min_widths@, 0);
        lemma_merge_at(st.pref_widths, r.col_pref_widths@, 0);
        let rest = kids.drop_first();
        assert forall|i: int| 0 <= i < rest.len() implies is_row(#[trigger] rest[i]) by {
            assert(rest[i] == kids[i + 1]);
        }
        lemma_auto_rows(next, rest);
        assert(mins_of(kids).drop_first() =~= mins_of(rest));
        assert(prefs_of(kids).drop_first() =~= prefs_of(rest));
        assert(mins_of(kids)[0] == r.col_min_widths@);
        assert(prefs_of(kids)[0] == r.col_pref_widths@);
        let end = columns_after(next, rest, TableLayout::AutoLayout);
        let n = widest(mins_of(rest), next.min_widths.len());
        lemma_widest_at_least(mins_of(rest), next.min_widths.len());
        let added: nat = if n0 < r.col_min_widths@.len() {
            (r.col_min_widths@.len() - n0) as nat
        } else {
            0
        };
        assert(next.widths == st.widths + Seq::new(added, |i: int| Au(0)));
        assert(next.min_widths.len() == n0 + added);
        assert(end.widths == next.widths + Seq::new(
            (n - next.min_widths.len()) as nat,
            |i: int| Au(0),
        ));
        assert(end.widths =~= st.widths + Seq::new(
            (n - st.min_widths.len()) as nat,
            |i: int| Au(0),
        ));
    }
}

/// Under automatic layout, a table whose children are rows (each giving a
/// minimum and a preferred width for the same columns) ends with as many
/// columns as its widest row; each column's minimum and preferred widths
/// are the largest among the rows that have that column, and its own width
/// is zero.
pub proof fn lemma_auto_layout_columns(kids: Seq<TableChild>)
    requires
        forall|i: int| 0 <= i < kids.len() ==> is_row(#[trigger] kids[i]),
    ensures
        ({
            let start = ColumnState {
                widths: Seq::empty(),
                min_widths: Seq::empty(),
                pref_widths: Seq::empty(),
                min_width: 0,
                pref_width: 0,
                did_first_row: false,
            };
            let end = columns_after(start, kids, TableLayout::AutoLayout);
            let n = widest(mins_of(kids), 0);
            &&& end.min_widths.len() == n
            &&& end.pref_widths.len() == n
            &&& end.widths == Seq::new(n, |i: int| Au(0))
            &&& forall|j: int|
                0 <= j < n ==> Some(#[trigger] end.min_widths[j]) == column_max(mins_of(kids), j)
            &&& forall|j: int|
                0 <= j < n ==> Some(#[trigger] end.pref_widths[j]) == column_max(prefs_of(kids), j)
        }),
{
    let start = ColumnState {
        widths: Seq::empty(),
        min_widths: Seq::empty(),
        pref_widths: Seq::empty(),
        min_width: 0,
        pref_width: 0,
        did_first_row: false,
    };
    lemma_auto_rows(start, kids);
    let n = widest(mins_of(kids), 0);
    assert(Seq::<Au>::empty() + Seq::new(n, |i: int| Au(0)) =~= Seq::new(n, |i: int| Au(0)));
}

pub open spec fn row_cols(kid: TableChild) -> Seq<Au> {
    match kid {
        TableChild::Row(r) => r.col_widths@,
        TableChild::ColGroup(w) => w@,
    }
}

pub open spec fn cols_of(kids: Seq<TableChild>) -> Seq<Seq<Au>> {
    kids.map_values(|k: TableChild| row_cols(k))
}

/// The widths of a run of column groups, one after the other.
pub open spec fn group_widths(groups: Seq<TableChild>) -> Seq<Au>
    decreases groups.len(),
{
    if groups.len() == 0 {
        Seq::empty()
    } else {
        row_cols(groups[0]) + group_widths(groups.drop_first())
    }
}

/// The width at place `j` of the first list that reaches it.
pub open spec fn first_reach(lists: Seq<Seq<Au>>, j: int) -> Option<Au>
    decreases lists.len(),
{
    if lists.len() == 0 {
        None
    } else if 0 <= j < lists[0].len() {
        Some(lists[0][j])
    } else {
        first_reach(lists.drop_first(), j)
    }
}

proof fn lemma_columns_after_concat(
    st: ColumnState,
    a: Seq<TableChild>,
    b: Seq<TableChild>,
    layout: TableLayout,
)
    ensures
        columns_after(st, a + b, layout) == columns_after(columns_after(st, a, layout), b, layout),
    decreases a.len(),
{
    if a.len() == 0 {
        assert(a + b =~= b);
    } else {
        assert((a + b).drop_first() =~= a.drop_first() + b);
        assert((a + b)[0] == a[0]);
        lemma_columns_after_concat(column_step(st, a[0], layout), a.drop_first(), b, layout);
    }
}

proof fn lemma_fixed_groups(st: ColumnState, groups: Seq<TableChild>)
    requires
        forall|i: int| 0 <= i < groups.len() ==> (#[trigger] groups[i]) is ColGroup,
    ensures
        columns_after(st, groups, TableLayout::FixedLayout).widths == st.widths + group_widths(
            groups,
        ),
        columns_after(st, groups, TableLayout::FixedLayout).did_first_row == st.did_first_row,
    decreases groups.len(),
{
    if groups.len() == 0 {
        assert(st.widths + Seq::<Au>::empty() =~= st.widths);
    } else {
        assert(groups[0] is ColGroup);
        let rest = groups.drop_first();
        assert forall|i: int| 0 <= i < rest.len() implies (#[trigger] rest[i]) is ColGroup by {
            assert(rest[i] == groups[i + 1]);
        }
        let next = column_step(st, groups[0], TableLayout::FixedLayout);
        lemma_fixed_groups(next, rest);
        assert(next.widths + group_widths(rest) =~= st.widths + group_widths(groups));
    }
}

proof fn lemma_fixed_later_rows(st: ColumnState, rows: Seq<TableChild>)
    requires
        st.did_first_row,
        forall|i: int| 0 <= i < rows.len() ==> (#[trigger] rows[i]) is Row,
    ensures
        ({
            let end = columns_after(st, rows, TableLayout::FixedLayout);
            let n = widest(cols_of(rows), st.widths.len());
            &&& end.widths.len() == n
            &&& forall|j: int|
                0 <= j < st.widths.len() ==> #[trigger] end.widths[j] == st.widths[j]
            &&& forall|j: int|
                st.widths.len() <= j < n ==> Some(#[trigger] end.widths[j]) == first_reach(
                    cols_of(rows),
                    j,
                )
        }),
    decreases rows.len(),
{
    if rows.len() > 0 {
        assert(rows[0] is Row);
        let r = rows[0]->Row_0;
        let rest = rows.drop_first();
        assert forall|i: int| 0 <= i < rest.len() implies (#[trigger] rest[i]) is Row by {
            assert(rest[i] == rows[i + 1]);
        }
        let next = column_step(st, rows[0], TableLayout::FixedLayout);
        lemma_fixed_later_rows(next, rest);
        assert(cols_of(rows).drop_first() =~= cols_of(rest));
        assert(cols_of(rows)[0] == r.col_widths@);
        lemma_widest_at_least(cols_of(rest), next.widths.len());
    }
}

/// Under fixed layout, a table whose children are column groups followed
/// by rows takes the column groups' widths one after the other; where one
/// of those is unspecified (zero) the first row fills it in; and each
/// further column takes its width from the first row that has it.
pub proof fn lemma_fixed_layout_columns(groups: Seq<TableChild>, rows: Seq<TableChild>)
    requires
        forall|i: int| 0 <= i < groups.len() ==> (#[trigger] groups[i]) is ColGroup,
        forall|i: int| 0 <= i < rows.len() ==> (#[trigger] rows[i]) is Row,
    ensures
        ({
            let start = ColumnState {
                widths: Seq::empty(),
                min_widths: Seq::empty(),
                pref_widths: Seq::empty(),
                min_width: 0,
                pref_width: 0,
                did_first_row: false,
            };
            let end = columns_after(start, groups + rows, TableLayout::FixedLayout);
            let g = group_widths(groups);
            let n = widest(cols_of(rows), g.len());
            &&& end.widths.len() == n
            &&& forall|j: int|
                0 <= j < g.len() ==> #[trigger] end.widths[j] == if rows.len() > 0 && j
                    < cols_of(rows)[0].len() && g[j].0 == 0 {
                    cols_of(rows)[0][j]
                } else {
                    g[j]
                }
            &&& forall|j: int|
                g.len() <= j < n ==> Some(#[trigger] end.widths[j]) == first_reach(
                    cols_of(rows),
                    j,
                )
        }),
{
    let start = ColumnState {
        widths: Seq::empty(),
        min_widths: Seq::empty(),
        pref_widths: Seq::empty(),
        min_width: 0,
        pref_width: 0,
        did_first_row: false,
    };
    let g = group_widths(groups);
    lemma_columns_after_concat(start, groups, rows, TableLayout::FixedLayout);
    lemma_fixed_groups(start, groups);
    let mid = columns_after(start, groups, TableLayout::FixedLayout);
    assert(mid.widths =~= g);
    if rows.len() > 0 {
        assert(rows[0] is Row);
        let r = rows[0]->Row_0;
        let rest = rows.drop_first();
        assert forall|i: int| 0 <= i < rest.len() implies (#[trigger] rest[i]) is Row by {
            assert(rest[i] == rows[i + 1]);
        }
        let next = column_step(mid, rows[0], TableLayout::FixedLayout);
        assert(next.widths == fill_unspecified(g, r.col_widths@) + tail_from(
            r.col_widths@,
            g.len() as int,
        ));
        lemma_fixed_later_rows(next, rest);
        assert(cols_of(rows).drop_first() =~= cols_of(rest));
        assert(cols_of(rows)[0] == r.col_widths@);
        lemma_widest_at_least(cols_of(rest), next.widths.len());
    }
}

/// A table flow: the table's own box inside its wrapper, with the widths of
/// its columns.
#[derive(Debug)]
pub struct TableFlow {
    /// Column widths.
    pub col_widths: Vec<Au>,
    /// Column min widths.
    pub col_min_widths: Vec<Au>,
    /// Column pref widths.
    pub col_pref_widths: Vec<Au>,
    pub table_layout: TableLayout,
    /// Intrinsic minimum width of the table.
    pub minimum_width: Au,
    /// Intrinsic preferred width of the table.
    pub preferred_width: Au,
}

impl TableFlow {
    /// A table with no columns yet.
    pub fn new(table_layout: TableLayout) -> (r: TableFlow)
        ensures
            r.col_widths@ == Seq::<Au>::empty(),
            r.col_min_widths@ == Seq::<Au>::empty(),
            r.col_pref_widths@ == Seq::<Au>::empty(),
            r.table_layout == table_layout,
            r.minimum_width == Au(0),
            r.preferred_width == Au(0),
    {
        TableFlow {
            col_widths: Vec::new(),
            col_min_widths: Vec::new(),
            col_pref_widths: Vec::new(),
            table_layout,
            minimum_width: Au(0),
            preferred_width: Au(0),
        }
    }

    /// Raises each of `self_widths` to the width at the same place in
    /// `kid_widths` where that is larger, and returns the sum of the results.
    pub fn update_col_widths(self_widths: &mut Vec<Au>, kid_widths: &Vec<Au>) -> (r: Au)
        requires
            i32::MIN <= sum_widths(widened(old(self_widths)@, kid_widths@)) <= i32::MAX,
        ensures
            final(self_widths)@ == widened(old(self_widths)@, kid_widths@),
            r.0 == sum_widths(final(self_widths)@),
    {
        let ghost target = widened(self_widths@, kid_widths@);
        let ghost start = self_widths@;
        let mut sum: i128 = 0;
        let mut i: usize = 0;
        while i < self_widths.len()
            invariant
                self_widths@.len() == start.len(),
                i <= start.len(),
                target == widened(start, kid_widths@),
                self_widths@ == target.take(i as int) + start.skip(i as int),
                sum == sum_widths(target.take(i as int)),
            decreases start.len() - i,
        {
            proof {
                assert(target.take(i + 1).drop_last() =~= target.take(i as int));
                lemma_sum_widths_bound(target.take(i as int));
            }
            if i < kid_widths.len() {
                let kid = kid_widths[i];
                if self_widths[i].0 < kid.0 {
                    self_widths.set(i, kid);
                }
            }
            sum = sum + self_widths[i].0 as i128;
            i = i + 1;
            assert(self_widths@ =~= target.take(i as int) + start.skip(i as int));
        }
        assert(target.take(i as int) =~= target);
        assert(self_widths@ =~= target);
        Au(sum as i32)
    }

    /// Shares out the content width among the columns under fixed layout
    /// (see `distributed`); under automatic layout the widths stay.
    pub fn distribute_col_widths(&mut self, content_width: Au)
        requires
            count_unspecified(old(self).col_widths@) != 0 ==> i32::MIN <= content_width.0
                - sum_widths(old(self).col_widths@) <= i32::MAX,
        ensures
            final(self).col_widths@ == match old(self).table_layout {
                TableLayout::FixedLayout => distributed(
                    old(self).col_widths@,
                    content_width.0 as int,
                ),
                TableLayout::AutoLayout => old(self).col_widths@,
            },
            final(self).col_min_widths == old(self).col_min_widths,
            final(self).col_pref_widths == old(self).col_pref_widths,
            final(self).table_layout == old(self).table_layout,
            final(self).minimum_width == old(self).minimum_width,
            final(self).preferred_width == old(self).preferred_width,
    {
        let ghost start = self.col_widths@;
        let mut num_unspecified: usize = 0;
        let mut total: i128 = 0;
        let mut i: usize = 0;
        while i < self.col_widths.len()
            invariant
                i <= start.len(),
                start == self.col_widths@,
                num_unspecified == count_unspecified(start.take(i as int)),
                num_unspecified <= i,
                total == sum_widths(start.take(i as int)),
            decreases start.len() - i,
        {
            proof {
                assert(start.take(i + 1).drop_last() =~= start.take(i as int));
                lemma_sum_widths_bound(start.take(i as int));
            }
            if self.col_widths[i].0 == 0 {
                num_unspecified = num_unspecified + 1;
            } else {
                total = total + self.col_widths[i].0 as i128;
            }
            i = i + 1;
        }
        assert(start.take(start.len() as int) =~= start);
        proof {
            lemma_sum_widths_bound(start);
        }
        match self.table_layout {
            TableLayout::FixedLayout => {
                let content = content_width.0 as i128;
                if total < content && num_unspecified == 0 {
                    let ghost target = distributed(start, content as int);
                    let mut k: usize = 0;
                    while k < self.col_widths.len()
                        invariant
                            k <= start.len(),
                            self.col_widths@.len() == start.len(),
                            target == distributed(start, content as int),
                            total == sum_widths(start),
                            -(start.len() * 0x8000_0000) <= total <= start.len() * 0x8000_0000,
                            total < content,
                            content == content_width.0,
                            count_unspecified(start) == 0,
                            self.col_widths@ == target.take(k as int) + start.skip(k as int),
                            self.table_layout == TableLayout::FixedLayout,
                            self.col_min_widths == old(self).col_min_widths,
                            self.col_pref_widths == old(self).col_pref_widths,
                            self.minimum_width == old(self).minimum_width,
                            self.preferred_width == old(self).preferred_width,
                        decreases start.len() - k,
                    {
                        assert(self.col_widths@[k as int] == start[k as int]);
                        let w = self.col_widths[k].0 as i128;
                        let scaled: i128 = if total == 0 {
                            if w > 0 {
                                i32::MAX as i128
                            } else if w < 0 {
                                i32::MIN as i128
                            } else {
                                0
                            }
                        } else {
                            proof {
                                let (wi, ci) = (w as int, content as int);
                                assert(-0x4000_0000_0000_0000 <= wi * ci <= 0x4000_0000_0000_0000)
                                    by (nonlinear_arith)
                                    requires
                                        -0x8000_0000 <= wi < 0x8000_0000,
                                        -0x8000_0000 <= ci < 0x8000_0000,
                                ;
                            }
                            let prod = w * content;
                            let num = if total > 0 {
                                prod
                            } else {
                                -prod
                            };
                            let den = if total > 0 {
                                total
                            } else {
                                -total
                            };
                            assert(-0x4000_0000_0000_0000 <= num <= 0x4000_0000_0000_0000);
                            let q = if num >= 0 {
                                (2 * num + den) / (2 * den)
                            } else {
                                -((2 * (-num) + den) / (2 * den))
                            };
                            if q > i32::MAX as i128 {
                                i32::MAX as i128
                            } else if q < i32::MIN as i128 {
                                i32::MIN as i128
                            } else {
                                q
                            }
                        };
                        self.col_widths.set(k, Au(scaled as i32));
                        k = k + 1;
                        assert(self.col_widths@ =~= target.take(k as int) + start.skip(
                            k as int,
                        ));
                    }
                    assert(self.col_widths@ =~= target);
                } else if num_unspecified != 0 {
                    let diff = content - total;
                    let n = num_unspecified as i128;
                    let extra: i128 = if diff >= 0 {
                        proof {
                            let d = diff as int;
                            let m = n as int;
                            assert(0 <= d / m <= d) by (nonlinear_arith)
                                requires
                                    0 <= d,
                                    1 <= m,
                            ;
                        }
                        diff / n
                    } else {
                        proof {
                            let d = -diff as int;
                            let m = n as int;
                            assert(0 <= d / m <= d) by (nonlinear_arith)
                                requires
                                    0 <= d,
                                    1 <= m,
                            ;
                        }
                        -((-diff) / n)
                    };
                    let ghost target = distributed(start, content as int);
                    let mut k: usize = 0;
                    while k < self.col_widths.len()
                        invariant
                            k <= start.len(),
                            self.col_widths@.len() == start.len(),
                            target == distributed(start, content as int),
                            total == sum_widths(start),
                            !(total < content && count_unspecified(start) == 0),
                            count_unspecified(start) == n,
                            n != 0,
                            extra == div_toward_zero(content - total, n as int),
                            i32::MIN <= extra <= i32::MAX,
                            self.col_widths@ == target.take(k as int) + start.skip(k as int),
                            self.table_layout == TableLayout::FixedLayout,
                            self.col_min_widths == old(self).col_min_widths,
                            self.col_pref_widths == old(self).col_pref_widths,
                            self.minimum_width == old(self).minimum_width,
                            self.preferred_width == old(self).preferred_width,
                        decreases start.len() - k,
                    {
                        if self.col_widths[k].0 == 0 {
                            self.col_widths.set(k, Au(extra as i32));
                        }
                        k = k + 1;
                        assert(self.col_widths@ =~= target.take(k as int) + start.skip(
                            k as int,
                        ));
                    }
                    assert(self.col_widths@ =~= target);
                }
            },
            TableLayout::AutoLayout => {},
        }
    }

    /// The column state of this table, with the running widths of a walk
    /// over its children.
    pub open spec fn columns(&self, min_width: int, pref_width: int, did_first_row: bool) -> ColumnState {
        ColumnState {
            widths: self.col_widths@,
            min_widths: self.col_min_widths@,
            pref_widths: self.col_pref_widths@,
            min_width,
            pref_width,
            did_first_row,
        }
    }

    /// Gathers the column widths of the children, in order. Under fixed
    /// layout the column groups give the widths and the first row fills in
    /// those left unspecified; under automatic layout each column takes the
    /// largest minimum and preferred widths of the rows. The intrinsic
    /// minimum width is the sum of the column minimums the last row left,
    /// and the preferred width is at least that.
    pub fn bubble_widths(&mut self, kids: &Vec<TableChild>)
        requires
            columns_fit(old(self).columns(0, 0, false), kids@, old(self).table_layout),
        ensures
            ({
                let end = columns_after(old(self).columns(0, 0, false), kids@, old(self).table_layout);
                &&& final(self).col_widths@ == end.widths
                &&& final(self).col_min_widths@ == end.min_widths
                &&& final(self).col_pref_widths@ == end.pref_widths
                &&& final(self).minimum_width.0 == end.min_width
                &&& final(self).preferred_width.0 == if end.min_width >= end.pref_width {
                    end.min_width
                } else {
                    end.pref_width
                }
            }),
            final(self).table_layout == old(self).table_layout,
    {
        let ghost layout = self.table_layout;
        let ghost all = kids@;
        let ghost end = columns_after(self.columns(0, 0, false), all, layout);
        let mut min_width: i32 = 0;
        let mut pref_width: i32 = 0;
        let mut did_first_row = false;
        let mut k: usize = 0;
        assert(all.skip(0) =~= all);
        while k < kids.len()
            invariant
                k <= all.len(),
                all == kids@,
                layout == self.table_layout,
                end == columns_after(self.columns(min_width as int, pref_width as int, did_first_row), all.skip(k as int), layout),
                columns_fit(self.columns(min_width as int, pref_width as int, did_first_row), all.skip(k as int), layout),
            decreases all.len() - k,
        {
            let ghost cur = self.columns(min_width as int, pref_width as int, did_first_row);
            assert(all.skip(k as int)[0] == all[k as int]);
            assert(all.skip(k as int).drop_first() =~= all.skip(k + 1));
            let ghost next = column_step(cur, all[k as int], layout);
            match &kids[k] {
                TableChild::ColGroup(w) => {
                    append_from(&mut self.col_widths, w, 0);
                    assert(tail_from(w@, 0) =~= w@);
                    let mut mins: Vec<Au> = Vec::new();
                    append_from(&mut mins, &self.col_widths, 0);
                    let mut prefs: Vec<Au> = Vec::new();
                    append_from(&mut prefs, &self.col_widths, 0);
                    assert(tail_from(self.col_widths@, 0) =~= self.col_widths@);
                    assert(Seq::<Au>::empty() + self.col_widths@ =~= self.col_widths@);
                    self.col_min_widths = mins;
                    self.col_pref_widths = prefs;
                },
                TableChild::Row(r) => {
                    match self.table_layout {
                        TableLayout::FixedLayout => {
                            let n = self.col_widths.len();
                            if !did_first_row {
                                did_first_row = true;
                                fill_unspecified_widths(&mut self.col_widths, &r.col_widths);
                            }
                            append_from(&mut self.col_widths, &r.col_widths, n);
                                },
                        TableLayout::AutoLayout => {
                            let n = self.col_min_widths.len();
                            let ghost w0 = self.col_widths@;
                            let mw = TableFlow::update_col_widths(
                                &mut self.col_min_widths,
                                &r.col_min_widths,
                            );
                            let pw = TableFlow::update_col_widths(
                                &mut self.col_pref_widths,
                                &r.col_pref_widths,
                            );
                            let ghost mins0 = self.col_min_widths@;
                            let ghost prefs0 = self.col_pref_widths@;
                            let mut minw: i128 = mw.0 as i128;
                            let mut prefw: i128 = pw.0 as i128;
                            if n < r.col_min_widths.len() {
                                let mut i: usize = n;
                                assert(r.col_min_widths@.subrange(n as int, n as int) =~= Seq::<Au>::empty());
                                assert(r.col_pref_widths@.subrange(n as int, n as int) =~= Seq::<Au>::empty());
                                assert(mins0 + Seq::<Au>::empty() =~= mins0);
                                assert(prefs0 + Seq::<Au>::empty() =~= prefs0);
                                assert(w0 + Seq::new(0nat, |j: int| Au(0)) =~= w0);
                                while i < r.col_min_widths.len()
                                    invariant
                                        n <= i <= r.col_min_widths@.len(),
                                        self.table_layout == layout,
                                        r.col_min_widths@.len() <= r.col_pref_widths@.len(),
                                        mins0.len() == n,
                                        prefs0.len() == n,
                                        self.col_widths@ == w0 + Seq::new((i - n) as nat, |j: int| Au(0)),
                                        self.col_min_widths@ == mins0 + r.col_min_widths@.subrange(n as int, i as int),
                                        self.col_pref_widths@ == prefs0 + r.col_pref_widths@.subrange(n as int, i as int),
                                        minw == sum_widths(self.col_min_widths@),
                                        prefw == sum_widths(self.col_pref_widths@),
                                    decreases r.col_min_widths@.len() - i,
                                {
                                    proof {
                                        lemma_sum_widths_bound(self.col_min_widths@);
                                        lemma_sum_widths_bound(self.col_pref_widths@);
                                    }
                                    self.col_widths.push(Au(0));
                                    let a = r.col_min_widths[i];
                                    self.col_min_widths.push(a);
                                    let b = r.col_pref_widths[i];
                                    self.col_pref_widths.push(b);
                                    assert(self.col_min_widths@.drop_last() =~= mins0 + r.col_min_widths@.subrange(n as int, i as int));
                                    assert(self.col_pref_widths@.drop_last() =~= prefs0 + r.col_pref_widths@.subrange(n as int, i as int));
                                    minw = minw + a.0 as i128;
                                    prefw = prefw + b.0 as i128;
                                    i = i + 1;
                                    assert(self.col_widths@ =~= w0 + Seq::new((i - n) as nat, |j: int| Au(0)));
                                    assert(self.col_min_widths@ =~= mins0 + r.col_min_widths@.subrange(n as int, i as int));
                                    assert(self.col_pref_widths@ =~= prefs0 + r.col_pref_widths@.subrange(n as int, i as int));
                                }
                            } else {
                                assert(mins0 + tail_from(r.col_min_widths@, n as int) =~= mins0);
                                assert(prefs0 + entries_between(r.col_pref_widths@, n as int, r.col_min_widths@.len() as int) =~= prefs0);
                                assert(w0 + Seq::new(0nat, |j: int| Au(0)) =~= w0);
                            }
                            assert(self.col_widths@ =~= next.widths);
                            assert(self.col_min_widths@ =~= next.min_widths);
                            assert(self.col_pref_widths@ =~= next.pref_widths);
                            min_width = minw as i32;
                            pref_width = prefw as i32;
                                },
                    }
                },
            }
            assert(self.columns(min_width as int, pref_width as int, did_first_row) == next);
            k = k + 1;
        }
        self.minimum_width = Au(min_width);
        self.preferred_width = if min_width >= pref_width {
            Au(min_width)
        } else {
            Au(pref_width)
        };
    }
}

/// Table, row group, row and cell boxes: their widths are computed alike
/// and they have no margins.
#[derive(Clone, Copy, Debug, PartialEq, Eq, Structural)]
pub struct InternalTable;

/// Used width and horizontal margins of a box.
#[derive(Clone, Copy, Debug, PartialEq, Eq, Structural)]
pub struct WidthConstraintSolution {
    pub width: Au,
    pub margin_left: Au,
    pub margin_right: Au,
}

impl InternalTable {
    /// The box takes all the available width and no margin.
    pub fn solve_width_constraints(&self, available_width: Au) -> (r: WidthConstraintSolution)
        ensures
            r == (WidthConstraintSolution {
                width: available_width,
                margin_left: Au(0),
                margin_right: Au(0),
            }),
    {
        WidthConstraintSolution { width: available_width, margin_left: Au(0), margin_right: Au(0) }
    }
}

} // verus!
