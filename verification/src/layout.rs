//! Fitting a table of text columns into a terminal: which columns are
//! dropped when the table is too wide, and how far the optional ones are
//! cut down.
//!
//! A table of `n` columns is drawn with three characters of framing per
//! column and one more at the end, around the contents of its columns.

use vstd::prelude::*;
use crate::text::{chars_of, part_texts, split_on, split_parts, string_of};

verus! {

/// The lower-case form of an ASCII capital, and any other character as it
/// is.
pub open spec fn ascii_lower(c: char) -> char {
    if 'A' <= c && c <= 'Z' {
        ((c as u8 + 32) as u8) as char
    } else {
        c
    }
}

/// Whether two texts are the same but for the case of their ASCII letters.
pub open spec fn same_ignoring_case(a: Seq<char>, b: Seq<char>) -> bool {
    &&& a.len() == b.len()
    &&& forall|i: int| 0 <= i < a.len() ==> ascii_lower(#[trigger] a[i]) == ascii_lower(b[i])
}

fn lower(c: char) -> (low: char)
    ensures
        low == ascii_lower(c),
{
    if c >= 'A' && c <= 'Z' {
        (c as u8 + 32) as char
    } else {
        c
    }
}

/// Whether two texts are the same but for the case of their ASCII letters.
pub fn eq_ignore_ascii_case(a: &str, b: &str) -> (same: bool)
    ensures
        same == same_ignoring_case(a@, b@),
{
    let left = chars_of(a);
    let right = chars_of(b);
    if left.len() != right.len() {
        return false;
    }
    let mut i: usize = 0;
    while i < left.len()
        invariant
            left@ == a@,
            right@ == b@,
            left@.len() == right@.len(),
            i <= left@.len(),
            forall|j: int|
                0 <= j < i ==> ascii_lower(#[trigger] left@[j]) == ascii_lower(right@[j]),
        decreases left@.len() - i,
    {
        if lower(left[i]) != lower(right[i]) {
            return false;
        }
        i = i + 1;
    }
    true
}

/// The position of the first header at or after `from` that is `name` but
/// for case.
pub open spec fn first_header(headers: Seq<String>, name: Seq<char>, from: int) -> Option<int>
    decreases headers.len() - from,
{
    if from < 0 || from >= headers.len() {
        None
    } else if same_ignoring_case(headers[from]@, name) {
        Some(from)
    } else {
        first_header(headers, name, from + 1)
    }
}

/// The positions of the headers that `names` name, in the order of the
/// names: for each name the first header that is that name but for case. A
/// name without a header adds nothing, and no position occurs twice.
pub open spec fn header_positions(headers: Seq<String>, names: Seq<&str>) -> Seq<int>
    decreases names.len(),
{
    if names.len() == 0 {
        Seq::<int>::empty()
    } else {
        let before = header_positions(headers, names.drop_last());
        match first_header(headers, names.last()@, 0) {
            Some(i) => if before.contains(i) {
                before
            } else {
                before.push(i)
            },
            None => before,
        }
    }
}

/// The positions that a list of indices holds.
pub open spec fn as_positions(indices: Seq<usize>) -> Seq<int> {
    indices.map_values(|i: usize| i as int)
}

fn find_header(headers: &[String], name: &str) -> (found: Option<usize>)
    ensures
        match found {
            Some(i) => first_header(headers@, name@, 0) == Some(i as int) && i < headers@.len(),
            None => first_header(headers@, name@, 0) is None,
        },
{
    let mut i: usize = 0;
    while i < headers.len()
        invariant
            i <= headers@.len(),
            first_header(headers@, name@, 0) == first_header(headers@, name@, i as int),
        decreases headers@.len() - i,
    {
        if eq_ignore_ascii_case(headers[i].as_str(), name) {
            return Some(i);
        }
        i = i + 1;
    }
    None
}

/// The positions of the headers that `names` name, each once, in the order
/// of the names. Names are matched without regard to ASCII case.
pub fn header_indices(headers: &[String], names: &[&str]) -> (indices: Vec<usize>)
    ensures
        as_positions(indices@) == header_positions(headers@, names@),
        forall|k: int| 0 <= k < indices@.len() ==> indices@[k] < headers@.len(),
{
    let mut indices: Vec<usize> = Vec::new();
    let mut k: usize = 0;
    proof {
        assert(names@.subrange(0, 0) =~= Seq::<&str>::empty());
        assert(as_positions(indices@) =~= Seq::<int>::empty());
    }
    while k < names.len()
        invariant
            k <= names@.len(),
            as_positions(indices@) == header_positions(headers@, names@.subrange(0, k as int)),
            forall|j: int| 0 <= j < indices@.len() ==> indices@[j] < headers@.len(),
        decreases names@.len() - k,
    {
        let ghost before = as_positions(indices@);
        proof {
            let next = names@.subrange(0, k + 1);
            assert(next.drop_last() =~= names@.subrange(0, k as int));
            assert(next.last() == names@[k as int]);
        }
        match find_header(headers, names[k]) {
            Some(index) => {
                if !is_among(indices.as_slice(), index) {
                    indices.push(index);
                    proof {
                        assert(as_positions(indices@) =~= before.push(index as int));
                    }
                }
            },
            None => {},
        }
        k = k + 1;
    }
    proof {
        assert(names@.subrange(0, k as int) =~= names@);
    }
    indices
}

/// The number of columns that are shown.
pub open spec fn active_count(active: Seq<bool>) -> nat
    decreases active.len(),
{
    if active.len() == 0 {
        0
    } else {
        active_count(active.drop_last()) + if active.last() {
            1nat
        } else {
            0nat
        }
    }
}

/// Whether column `i` is shown.
pub open spec fn shown(active: Seq<bool>, i: int) -> bool {
    0 <= i < active.len() && active[i]
}

/// The sum of the widths of the columns that are shown.
pub open spec fn content_width(widths: Seq<usize>, active: Seq<bool>) -> nat
    decreases widths.len(),
{
    if widths.len() == 0 {
        0
    } else {
        content_width(widths.drop_last(), active) + if shown(active, widths.len() - 1) {
            widths.last() as nat
        } else {
            0nat
        }
    }
}

/// The width of the table drawn with the columns that are shown: nothing
/// for no column, else the contents with three characters of framing per
/// column and one more.
pub open spec fn table_width(widths: Seq<usize>, active: Seq<bool>) -> nat {
    if active_count(active) == 0 {
        0
    } else {
        content_width(widths, active) + 3 * active_count(active) + 1
    }
}

proof fn lemma_active_count_bounds(active: Seq<bool>, k: int)
    requires
        0 <= k <= active.len(),
    ensures
        active_count(active.subrange(0, k)) <= active_count(active),
        active_count(active.subrange(0, k)) <= k,
    decreases active.len() - k,
{
    if k < active.len() {
        lemma_active_count_bounds(active, k + 1);
        let longer = active.subrange(0, k + 1);
        assert(longer.drop_last() =~= active.subrange(0, k));
        lemma_active_count_at_most_len(active.subrange(0, k));
    } else {
        assert(active.subrange(0, k) =~= active);
        lemma_active_count_at_most_len(active);
    }
}

proof fn lemma_active_count_at_most_len(active: Seq<bool>)
    ensures
        active_count(active) <= active.len(),
    decreases active.len(),
{
    if active.len() > 0 {
        lemma_active_count_at_most_len(active.drop_last());
    }
}

proof fn lemma_content_width_grows(widths: Seq<usize>, active: Seq<bool>, k: int)
    requires
        0 <= k <= widths.len(),
    ensures
        content_width(widths.subrange(0, k), active) <= content_width(widths, active),
    decreases widths.len() - k,
{
    if k < widths.len() {
        lemma_content_width_grows(widths, active, k + 1);
        let longer = widths.subrange(0, k + 1);
        assert(longer.drop_last() =~= widths.subrange(0, k));
    } else {
        assert(widths.subrange(0, k) =~= widths);
    }
}

/// The width of the table drawn with the columns that `active` marks.
pub fn table_total_width(col_widths: &[usize], active: &[bool]) -> (total: usize)
    requires
        table_width(col_widths@, active@) <= usize::MAX,
    ensures
        total == table_width(col_widths@, active@),
{
    let mut col_count: usize = 0;
    let mut i: usize = 0;
    proof {
        assert(active@.subrange(0, 0) =~= Seq::<bool>::empty());
    }
    while i < active.len()
        invariant
            i <= active@.len(),
            col_count <= i,
            col_count == active_count(active@.subrange(0, i as int)),
        decreases active@.len() - i,
    {
        proof {
            let longer = active@.subrange(0, i + 1);
            assert(longer.drop_last() =~= active@.subrange(0, i as int));
            assert(longer.last() == active@[i as int]);
        }
        if active[i] {
            col_count = col_count + 1;
        }
        i = i + 1;
    }
    proof {
        assert(active@.subrange(0, i as int) =~= active@);
    }
    if col_count == 0 {
        return 0;
    }
    let mut content: usize = 0;
    let mut j: usize = 0;
    proof {
        assert(col_widths@.subrange(0, 0) =~= Seq::<usize>::empty());
    }
    while j < col_widths.len()
        invariant
            j <= col_widths@.len(),
            content == content_width(col_widths@.subrange(0, j as int), active@),
            content_width(col_widths@, active@) <= usize::MAX,
        decreases col_widths@.len() - j,
    {
        proof {
            let longer = col_widths@.subrange(0, j + 1);
            assert(longer.drop_last() =~= col_widths@.subrange(0, j as int));
            assert(longer.last() == col_widths@[j as int]);
            lemma_content_width_grows(col_widths@, active@, j + 1);
        }
        if j < active.len() && active[j] {
            content = content + col_widths[j];
        }
        j = j + 1;
    }
    proof {
        assert(col_widths@.subrange(0, j as int) =~= col_widths@);
    }
    content + 3 * col_count + 1
}

/// A table in which every one of `n` columns is shown.
pub open spec fn all_shown(n: nat) -> Seq<bool> {
    Seq::new(n, |i: int| true)
}

/// The columns that are shown, and those that were dropped in the order of
/// their dropping, after the candidates `indices` were gone through: a
/// candidate is dropped if the table is still wider than `limit` when its
/// turn comes and it is still shown.
pub open spec fn after_drops(widths: Seq<usize>, limit: nat, indices: Seq<usize>) -> (
    Seq<bool>,
    Seq<usize>,
)
    decreases indices.len(),
{
    if indices.len() == 0 {
        (all_shown(widths.len()), Seq::<usize>::empty())
    } else {
        let (active, dropped) = after_drops(widths, limit, indices.drop_last());
        let index = indices.last();
        if table_width(widths, active) <= limit || !shown(active, index as int) {
            (active, dropped)
        } else {
            (active.update(index as int, false), dropped.push(index))
        }
    }
}

proof fn lemma_hiding_a_column(widths: Seq<usize>, active: Seq<bool>, index: int)
    requires
        shown(active, index),
    ensures
        active_count(active.update(index, false)) + 1 == active_count(active),
        content_width(widths, active.update(index, false)) <= content_width(widths, active),
        table_width(widths, active.update(index, false)) <= table_width(widths, active),
{
    lemma_count_without(active, index);
    lemma_content_without(widths, active, index);
}

proof fn lemma_count_without(active: Seq<bool>, index: int)
    requires
        shown(active, index),
    ensures
        active_count(active.update(index, false)) + 1 == active_count(active),
    decreases active.len(),
{
    let hidden = active.update(index, false);
    if index == active.len() - 1 {
        assert(hidden.drop_last() =~= active.drop_last());
    } else {
        assert(hidden.drop_last() =~= active.drop_last().update(index, false));
        lemma_count_without(active.drop_last(), index);
    }
}

proof fn lemma_content_without(widths: Seq<usize>, active: Seq<bool>, index: int)
    requires
        shown(active, index),
    ensures
        content_width(widths, active.update(index, false)) <= content_width(widths, active),
    decreases widths.len(),
{
    if widths.len() > 0 {
        lemma_content_without(widths.drop_last(), active, index);
    }
}

proof fn lemma_all_shown_count(n: nat)
    ensures
        active_count(all_shown(n)) == n,
    decreases n,
{
    if n > 0 {
        assert(all_shown(n).drop_last() =~= all_shown((n - 1) as nat));
        lemma_all_shown_count((n - 1) as nat);
    }
}

/// Chooses the columns to drop so that the table fits `terminal_width`.
///
/// Without a known width, and when the table fits, nothing is dropped.
/// Otherwise the candidates `drop_indices` are dropped one after the other
/// until the table fits or none is left. Returns the marks of the columns
/// that stay, the dropped columns in the order of their dropping, and the
/// width of the table that is left.
pub fn select_columns_to_drop(
    terminal_width: Option<usize>,
    drop_indices: &[usize],
    col_widths: &[usize],
) -> (out: (Vec<bool>, Vec<usize>, usize))
    requires
        forall|k: int| 0 <= k < drop_indices@.len() ==> drop_indices@[k] < col_widths@.len(),
        table_width(col_widths@, all_shown(col_widths@.len())) <= usize::MAX,
    ensures
        out.0@.len() == col_widths@.len(),
        out.2 == table_width(col_widths@, out.0@),
        match terminal_width {
            Some(limit) => (out.0@, out.1@) == after_drops(
                col_widths@,
                limit as nat,
                drop_indices@,
            ),
            None => out.0@ == all_shown(col_widths@.len()) && out.1@.len() == 0,
        },
{
    let mut active: Vec<bool> = Vec::new();
    let mut n: usize = 0;
    while n < col_widths.len()
        invariant
            n <= col_widths@.len(),
            active@ == all_shown(n as nat),
        decreases col_widths@.len() - n,
    {
        active.push(true);
        proof {
            assert(active@ =~= all_shown((n + 1) as nat));
        }
        n = n + 1;
    }
    let mut dropped: Vec<usize> = Vec::new();
    let mut total = table_total_width(col_widths, active.as_slice());
    let limit = match terminal_width {
        Some(limit) => limit,
        None => {
            return (active, dropped, total);
        },
    };
    let mut k: usize = 0;
    proof {
        assert(drop_indices@.subrange(0, 0) =~= Seq::<usize>::empty());
    }
    while k < drop_indices.len()
        invariant
            k <= drop_indices@.len(),
            forall|j: int| 0 <= j < drop_indices@.len() ==> drop_indices@[j] < col_widths@.len(),
            active@.len() == col_widths@.len(),
            (active@, dropped@) == after_drops(
                col_widths@,
                limit as nat,
                drop_indices@.subrange(0, k as int),
            ),
            total == table_width(col_widths@, active@),
        decreases drop_indices@.len() - k,
    {
        let index = drop_indices[k];
        proof {
            let next = drop_indices@.subrange(0, k + 1);
            assert(next.drop_last() =~= drop_indices@.subrange(0, k as int));
            assert(next.last() == index);
        }
        if total > limit && active[index] {
            proof {
                lemma_hiding_a_column(col_widths@, active@, index as int);
            }
            active.set(index, false);
            dropped.push(index);
            total = table_total_width(col_widths, active.as_slice());
        }
        k = k + 1;
    }
    proof {
        assert(drop_indices@.subrange(0, k as int) =~= drop_indices@);
    }
    (active, dropped, total)
}

/// Once the table fits, no further candidate is dropped.
pub proof fn lemma_drops_stop_when_fitting(
    widths: Seq<usize>,
    limit: nat,
    indices: Seq<usize>,
    more: Seq<usize>,
)
    requires
        table_width(widths, after_drops(widths, limit, indices).0) <= limit,
    ensures
        after_drops(widths, limit, indices + more) == after_drops(widths, limit, indices),
    decreases more.len(),
{
    if more.len() == 0 {
        assert(indices + more =~= indices);
    } else {
        assert((indices + more).drop_last() =~= indices + more.drop_last());
        lemma_drops_stop_when_fitting(widths, limit, indices, more.drop_last());
    }
}

/// Dropping never widens the table: whatever the candidates, the table that
/// is left is no wider than the whole table.
pub proof fn lemma_drops_only_narrow(widths: Seq<usize>, limit: nat, indices: Seq<usize>)
    ensures
        after_drops(widths, limit, indices).0.len() == widths.len(),
        table_width(widths, after_drops(widths, limit, indices).0) <= table_width(
            widths,
            all_shown(widths.len()),
        ),
    decreases indices.len(),
{
    if indices.len() > 0 {
        lemma_drops_only_narrow(widths, limit, indices.drop_last());
        let (active, dropped) = after_drops(widths, limit, indices.drop_last());
        let index = indices.last();
        if !(table_width(widths, active) <= limit || !shown(active, index as int)) {
            lemma_hiding_a_column(widths, active, index as int);
        }
    }
}

/// The least width that an optional column is cut down to.
pub const MIN_OPTIONAL_WIDTH: usize = 6;

/// The greatest width that an optional column is given when it is cut down.
pub const MAX_OPTIONAL_WIDTH: usize = 24;

/// The predicate that holds of the columns that are shown.
pub open spec fn is_shown(active: Seq<bool>) -> spec_fn(usize) -> bool {
    |index: usize| shown(active, index as int)
}

/// The marks of the columns that are shown and not optional.
pub open spec fn required_columns(n: nat, optional: Seq<usize>, active: Seq<bool>) -> Seq<bool> {
    Seq::new(n, |i: int| shown(active, i) && !as_positions(optional).contains(i))
}

/// The width that the table needs for its framing and for the columns that
/// are not optional.
pub open spec fn required_width(
    widths: Seq<usize>,
    optional: Seq<usize>,
    active: Seq<bool>,
) -> nat {
    3 * active_count(active) + 1 + content_width(
        widths,
        required_columns(widths.len(), optional, active),
    )
}

/// The width that each of `count` optional columns is cut down to in a
/// terminal of width `terminal_width`: an even share of what the required
/// part of the table leaves, held between the least and the greatest width.
pub open spec fn optional_share(terminal_width: nat, required: nat, count: nat) -> nat {
    if terminal_width <= required || count == 0 {
        MIN_OPTIONAL_WIDTH as nat
    } else {
        let share = (terminal_width - required) / (count as int);
        if share < MIN_OPTIONAL_WIDTH {
            MIN_OPTIONAL_WIDTH as nat
        } else if share > MAX_OPTIONAL_WIDTH {
            MAX_OPTIONAL_WIDTH as nat
        } else {
            share as nat
        }
    }
}

/// The optional columns that are shown, each with the width it is cut down
/// to: its own width, or the share of an optional column if that is less.
pub open spec fn optional_targets(
    terminal_width: nat,
    optional: Seq<usize>,
    widths: Seq<usize>,
    active: Seq<bool>,
) -> Seq<(usize, usize)> {
    let kept = optional.filter(is_shown(active));
    let required = required_width(widths, optional, active);
    let share = optional_share(terminal_width, required, kept.len());
    kept.map_values(
        |index: usize|
            (
                index,
                if widths[index as int] <= share {
                    widths[index as int]
                } else {
                    share as usize
                },
            ),
    )
}

/// For each optional column that is shown, the width to cut it down to so
/// that the table comes closer to `terminal_width`: the columns share evenly
/// what the framing and the other columns leave, but none is cut below 6
/// characters, none is given more than 24, and none more than it has.
pub fn optional_column_targets(
    terminal_width: usize,
    optional_indices: &[usize],
    col_widths: &[usize],
    active: &[bool],
) -> (targets: Vec<(usize, usize)>)
    requires
        forall|k: int|
            0 <= k < optional_indices@.len() && shown(active@, optional_indices@[k] as int)
                ==> optional_indices@[k] < col_widths@.len(),
        required_width(col_widths@, optional_indices@, active@) <= usize::MAX,
    ensures
        targets@ == optional_targets(
            terminal_width as nat,
            optional_indices@,
            col_widths@,
            active@,
        ),
{
    let mut kept: Vec<usize> = Vec::new();
    let mut k: usize = 0;
    proof {
        reveal(Seq::filter);
        assert(optional_indices@.subrange(0, 0) =~= Seq::<usize>::empty());
    }
    while k < optional_indices.len()
        invariant
            k <= optional_indices@.len(),
            kept@ == optional_indices@.subrange(0, k as int).filter(is_shown(active@)),
            forall|j: int|
                0 <= j < optional_indices@.len() && shown(active@, optional_indices@[j] as int)
                    ==> optional_indices@[j] < col_widths@.len(),
            forall|j: int| 0 <= j < kept@.len() ==> kept@[j] < col_widths@.len(),
        decreases optional_indices@.len() - k,
    {
        let index = optional_indices[k];
        proof {
            let prefix = optional_indices@.subrange(0, k as int);
            assert(optional_indices@.subrange(0, k + 1) =~= prefix.push(index));
            prefix.lemma_filter_push(index, is_shown(active@));
        }
        if index < active.len() && active[index] {
            kept.push(index);
        }
        k = k + 1;
    }
    proof {
        assert(optional_indices@.subrange(0, k as int) =~= optional_indices@);
    }
    let mut targets: Vec<(usize, usize)> = Vec::new();
    if kept.len() == 0 {
        proof {
            assert(targets@ =~= optional_targets(
                terminal_width as nat,
                optional_indices@,
                col_widths@,
                active@,
            ));
        }
        return targets;
    }
    let required = required_table_width(optional_indices, col_widths, active);
    let share: usize = if terminal_width <= required {
        MIN_OPTIONAL_WIDTH
    } else {
        let even = (terminal_width - required) / kept.len();
        if even < MIN_OPTIONAL_WIDTH {
            MIN_OPTIONAL_WIDTH
        } else if even > MAX_OPTIONAL_WIDTH {
            MAX_OPTIONAL_WIDTH
        } else {
            even
        }
    };
    let ghost plan = optional_targets(
        terminal_width as nat,
        optional_indices@,
        col_widths@,
        active@,
    );
    let mut j: usize = 0;
    while j < kept.len()
        invariant
            j <= kept@.len(),
            kept@ == optional_indices@.filter(is_shown(active@)),
            kept@.len() > 0,
            share == optional_share(
                terminal_width as nat,
                required_width(col_widths@, optional_indices@, active@),
                kept@.len(),
            ),
            plan == optional_targets(
                terminal_width as nat,
                optional_indices@,
                col_widths@,
                active@,
            ),
            forall|i: int| 0 <= i < kept@.len() ==> kept@[i] < col_widths@.len(),
            targets@ == plan.subrange(0, j as int),
        decreases kept@.len() - j,
    {
        let index = kept[j];
        let width = if col_widths[index] <= share {
            col_widths[index]
        } else {
            share
        };
        targets.push((index, width));
        proof {
            assert(targets@ =~= plan.subrange(0, j + 1));
        }
        j = j + 1;
    }
    proof {
        assert(plan.subrange(0, j as int) =~= plan);
    }
    targets
}

fn is_among(indices: &[usize], index: usize) -> (found: bool)
    ensures
        found == as_positions(indices@).contains(index as int),
{
    let mut i: usize = 0;
    while i < indices.len()
        invariant
            i <= indices@.len(),
            forall|j: int| 0 <= j < i ==> as_positions(indices@)[j] != index,
        decreases indices@.len() - i,
    {
        if indices[i] == index {
            proof {
                assert(as_positions(indices@)[i as int] == index);
            }
            return true;
        }
        i = i + 1;
    }
    false
}

fn required_table_width(
    optional_indices: &[usize],
    col_widths: &[usize],
    active: &[bool],
) -> (required: usize)
    requires
        required_width(col_widths@, optional_indices@, active@) <= usize::MAX,
    ensures
        required == required_width(col_widths@, optional_indices@, active@),
{
    let ghost marks = required_columns(col_widths@.len(), optional_indices@, active@);
    let mut col_count: usize = 0;
    let mut i: usize = 0;
    proof {
        assert(active@.subrange(0, 0) =~= Seq::<bool>::empty());
    }
    while i < active.len()
        invariant
            i <= active@.len(),
            col_count <= i,
            col_count == active_count(active@.subrange(0, i as int)),
        decreases active@.len() - i,
    {
        proof {
            let longer = active@.subrange(0, i + 1);
            assert(longer.drop_last() =~= active@.subrange(0, i as int));
            assert(longer.last() == active@[i as int]);
        }
        if active[i] {
            col_count = col_count + 1;
        }
        i = i + 1;
    }
    proof {
        assert(active@.subrange(0, i as int) =~= active@);
    }
    let mut required: usize = 3 * col_count + 1;
    let mut j: usize = 0;
    proof {
        assert(col_widths@.subrange(0, 0) =~= Seq::<usize>::empty());
    }
    while j < col_widths.len()
        invariant
            j <= col_widths@.len(),
            marks == required_columns(col_widths@.len(), optional_indices@, active@),
            col_count == active_count(active@),
            required == 3 * col_count + 1 + content_width(col_widths@.subrange(0, j as int), marks),
            required_width(col_widths@, optional_indices@, active@) <= usize::MAX,
        decreases col_widths@.len() - j,
    {
        proof {
            let longer = col_widths@.subrange(0, j + 1);
            assert(longer.drop_last() =~= col_widths@.subrange(0, j as int));
            assert(longer.last() == col_widths@[j as int]);
            lemma_content_width_grows(col_widths@, marks, j + 1);
        }
        if j < active.len() && active[j] && !is_among(optional_indices, j) {
            required = required + col_widths[j];
        }
        j = j + 1;
    }
    proof {
        assert(col_widths@.subrange(0, j as int) =~= col_widths@);
    }
    required
}

/// The number of terminal columns that the line `line` takes when it is
/// displayed.
pub uninterp spec fn display_width(line: Seq<char>) -> nat;

/// Trusted: `unicode_width::UnicodeWidthStr::width`. The result is the
/// displayed width of the text in columns, which depends on the text alone.
#[verifier::external_body]
fn line_width(line: &str) -> (width: usize)
    ensures
        width == display_width(line@),
{
    unicode_width::UnicodeWidthStr::width(line)
}

/// The greater of two numbers.
pub open spec fn greater(a: nat, b: nat) -> nat {
    if a >= b {
        a
    } else {
        b
    }
}

/// The greatest of `values`; 0 for none.
pub open spec fn greatest(values: Seq<usize>) -> nat
    decreases values.len(),
{
    if values.len() == 0 {
        0
    } else {
        greater(greatest(values.drop_last()), values.last() as nat)
    }
}

/// The width of the widest of `lines`; 0 for none.
pub open spec fn widest_line(lines: Seq<Seq<char>>) -> nat
    decreases lines.len(),
{
    if lines.len() == 0 {
        0
    } else {
        greater(widest_line(lines.drop_last()), display_width(lines.last()))
    }
}

/// The displayed width of a text of one or more lines: that of its widest
/// line.
pub open spec fn text_width_of(text: Seq<char>) -> nat {
    widest_line(split_parts(text, '\n'))
}

/// The greatest of `widths`; 0 for none.
pub fn max_width(widths: &[usize]) -> (widest: usize)
    ensures
        widest == greatest(widths@),
{
    let mut widest: usize = 0;
    let mut i: usize = 0;
    proof {
        assert(widths@.subrange(0, 0) =~= Seq::<usize>::empty());
    }
    while i < widths.len()
        invariant
            i <= widths@.len(),
            widest == greatest(widths@.subrange(0, i as int)),
        decreases widths@.len() - i,
    {
        proof {
            let longer = widths@.subrange(0, i + 1);
            assert(longer.drop_last() =~= widths@.subrange(0, i as int));
            assert(longer.last() == widths@[i as int]);
        }
        if widths[i] > widest {
            widest = widths[i];
        }
        i = i + 1;
    }
    proof {
        assert(widths@.subrange(0, i as int) =~= widths@);
    }
    widest
}

proof fn lemma_greatest_of_line_widths(widths: Seq<usize>, lines: Seq<Seq<char>>)
    requires
        widths.len() == lines.len(),
        forall|i: int| 0 <= i < lines.len() ==> widths[i] == display_width(#[trigger] lines[i]),
    ensures
        greatest(widths) == widest_line(lines),
    decreases lines.len(),
{
    if lines.len() > 0 {
        assert(widths.last() == display_width(lines[lines.len() - 1]));
        assert forall|i: int| 0 <= i < lines.drop_last().len() implies widths.drop_last()[i]
            == display_width(#[trigger] lines.drop_last()[i]) by {
            assert(widths[i] == display_width(lines[i]));
        }
        lemma_greatest_of_line_widths(widths.drop_last(), lines.drop_last());
    }
}

/// The displayed width of `text`: that of its widest line.
pub fn text_width(text: &str) -> (width: usize)
    ensures
        width == text_width_of(text@),
{
    let lines = split_on(text, '\n');
    let ghost texts = part_texts(lines@);
    let mut widths: Vec<usize> = Vec::new();
    let mut i: usize = 0;
    while i < lines.len()
        invariant
            i <= lines@.len(),
            texts == part_texts(lines@),
            widths@.len() == i,
            forall|j: int| 0 <= j < i ==> widths@[j] == display_width(#[trigger] texts[j]),
        decreases lines@.len() - i,
    {
        let line = string_of(lines[i].as_slice());
        proof {
            assert(texts[i as int] == lines@[i as int]@);
        }
        widths.push(line_width(line.as_str()));
        i = i + 1;
    }
    proof {
        lemma_greatest_of_line_widths(widths@, texts);
    }
    max_width(widths.as_slice())
}

/// The width of column `i` of a table: the displayed width of its header
/// or of its widest field, whichever is greater. A row that has no field
/// for the column does not count.
pub open spec fn column_width(headers: Seq<String>, rows: Seq<Vec<String>>, i: int) -> nat
    decreases rows.len(),
{
    if rows.len() == 0 {
        text_width_of(headers[i]@)
    } else {
        let above = column_width(headers, rows.drop_last(), i);
        let row = rows.last();
        if i < row@.len() {
            greater(above, text_width_of(row@[i]@))
        } else {
            above
        }
    }
}

/// The widths of the columns of a table with the given headers and rows.
/// Fields beyond the last header belong to no column.
pub fn compute_column_widths(headers: &[String], rows: &[Vec<String>]) -> (widths: Vec<usize>)
    ensures
        widths@.len() == headers@.len(),
        forall|i: int|
            0 <= i < headers@.len() ==> (#[trigger] widths@[i]) == column_width(
                headers@,
                rows@,
                i,
            ),
{
    let mut widths: Vec<usize> = Vec::new();
    let mut h: usize = 0;
    proof {
        assert(rows@.subrange(0, 0) =~= Seq::<Vec<String>>::empty());
    }
    while h < headers.len()
        invariant
            h <= headers@.len(),
            widths@.len() == h,
            forall|i: int|
                0 <= i < h ==> (#[trigger] widths@[i]) == column_width(
                    headers@,
                    Seq::<Vec<String>>::empty(),
                    i,
                ),
        decreases headers@.len() - h,
    {
        widths.push(text_width(headers[h].as_str()));
        h = h + 1;
    }
    let mut r: usize = 0;
    while r < rows.len()
        invariant
            r <= rows@.len(),
            widths@.len() == headers@.len(),
            forall|i: int|
                0 <= i < headers@.len() ==> (#[trigger] widths@[i]) == column_width(
                    headers@,
                    rows@.subrange(0, r as int),
                    i,
                ),
        decreases rows@.len() - r,
    {
        let row = &rows[r];
        let ghost above = rows@.subrange(0, r as int);
        let ghost below = rows@.subrange(0, r + 1);
        proof {
            assert(below.drop_last() =~= above);
            assert(below.last() == rows@[r as int]);
        }
        let mut c: usize = 0;
        while c < headers.len()
            invariant
                c <= headers@.len(),
                r < rows@.len(),
                *row == rows@[r as int],
                above == rows@.subrange(0, r as int),
                below == rows@.subrange(0, r + 1),
                below.drop_last() == above,
                below.last() == rows@[r as int],
                widths@.len() == headers@.len(),
                forall|i: int|
                    0 <= i < c ==> (#[trigger] widths@[i]) == column_width(headers@, below, i),
                forall|i: int|
                    c <= i < headers@.len() ==> (#[trigger] widths@[i]) == column_width(
                        headers@,
                        above,
                        i,
                    ),
            decreases headers@.len() - c,
        {
            if c < row.len() {
                let width = text_width(row[c].as_str());
                if width > widths[c] {
                    widths.set(c, width);
                }
            }
            c = c + 1;
        }
        r = r + 1;
    }
    proof {
        assert(rows@.subrange(0, r as int) =~= rows@);
    }
    widths
}

} // verus!
