//! The lines-of-code report: per-language counts, most code first, with
//! languages that have neither code nor comments left out, and the totals
//! of what is shown.
use vstd::prelude::*;
use crate::ranking::{rank, ranked};

verus! {

broadcast use vstd::seq_lib::group_to_multiset_ensures;

/// The counts of one language.
#[derive(Debug, Clone)]
pub struct LocRow {
    pub language: String,
    pub files: usize,
    pub code: usize,
    pub comments: usize,
    pub blanks: usize,
}

/// A row as the specifications see it.
pub ghost struct LocRowView {
    pub language: Seq<char>,
    pub files: usize,
    pub code: usize,
    pub comments: usize,
    pub blanks: usize,
}

impl View for LocRow {
    type V = LocRowView;

    open spec fn view(&self) -> LocRowView {
        LocRowView {
            language: self.language@,
            files: self.files,
            code: self.code,
            comments: self.comments,
            blanks: self.blanks,
        }
    }
}

/// The report: its rows in display order and the totals over them.
pub struct LocReport {
    pub rows: Vec<LocRow>,
    pub files: u128,
    pub code: u128,
    pub comments: u128,
    pub blanks: u128,
}

/// A language is shown unless it has neither code nor comments.
pub open spec fn shown(r: LocRowView) -> bool {
    !(r.code == 0 && r.comments == 0)
}

/// The shown rows of `s`, in order.
pub open spec fn shown_rows(s: Seq<LocRowView>) -> Seq<LocRowView>
    decreases s.len(),
{
    if s.len() == 0 {
        seq![]
    } else if shown(s.last()) {
        shown_rows(s.drop_last()).push(s.last())
    } else {
        shown_rows(s.drop_last())
    }
}

/// Each row's code count paired with its position.
pub open spec fn code_keys(s: Seq<LocRowView>) -> Seq<(i128, usize)> {
    Seq::new(s.len(), |i: int| (s[i].code as i128, i as usize))
}

/// Sums of the four counts over `s`.
pub open spec fn sum_files(s: Seq<LocRowView>) -> int
    decreases s.len(),
{
    if s.len() == 0 {
        0
    } else {
        sum_files(s.drop_last()) + s.last().files
    }
}

pub open spec fn sum_code(s: Seq<LocRowView>) -> int
    decreases s.len(),
{
    if s.len() == 0 {
        0
    } else {
        sum_code(s.drop_last()) + s.last().code
    }
}

pub open spec fn sum_comments(s: Seq<LocRowView>) -> int
    decreases s.len(),
{
    if s.len() == 0 {
        0
    } else {
        sum_comments(s.drop_last()) + s.last().comments
    }
}

pub open spec fn sum_blanks(s: Seq<LocRowView>) -> int
    decreases s.len(),
{
    if s.len() == 0 {
        0
    } else {
        sum_blanks(s.drop_last()) + s.last().blanks
    }
}

/// The views of a list of rows.
pub open spec fn row_views(s: Seq<LocRow>) -> Seq<LocRowView> {
    s.map_values(|r: LocRow| r@)
}

/// A copy of a row.
fn copy_row(r: &LocRow) -> (c: LocRow)
    ensures
        c@ == r@,
{
    LocRow {
        language: r.language.clone(),
        files: r.files,
        code: r.code,
        comments: r.comments,
        blanks: r.blanks,
    }
}

/// Read through a ranking of their code counts, rows come out most code
/// first: listing `s` in the order of a ranking `p` of `code_keys(s)` gives
/// no row twice, the highest code count first, and rows with equal code
/// counts in the order they had in `s`.
pub proof fn lemma_rows_by_code(s: Seq<LocRowView>, p: Seq<(i128, usize)>, out: Seq<LocRowView>)
    requires
        s.len() <= usize::MAX,
        ranked(p),
        p.to_multiset() == code_keys(s).to_multiset(),
        out.len() == p.len(),
        forall|i: int| 0 <= i < p.len() ==> p[i].1 < s.len() && #[trigger] out[i] == s[p[i].1 as int],
    ensures
        forall|i: int, j: int| 0 <= i < j < out.len() ==> #[trigger] out[i].code >= #[trigger] out[j].code,
        forall|i: int, j: int|
            0 <= i < j < out.len() && out[i].code == out[j].code ==> #[trigger] p[i].1 < #[trigger] p[j].1,
        forall|i: int, j: int| 0 <= i < j < p.len() ==> #[trigger] p[i].1 != #[trigger] p[j].1,
{
    let c = code_keys(s);
    assert forall|i: int| 0 <= i < p.len() implies #[trigger] c.contains(p[i]) && p[i].0 == s[p[i].1 as int].code by {
        assert(p.contains(p[i]));
        assert(p.to_multiset().count(p[i]) > 0);
        assert(c.contains(p[i]));
        let a = choose|a: int| 0 <= a < c.len() && c[a] == p[i];
        assert(c[a] == p[i]);
    }
    assert(c.no_duplicates()) by {
        assert forall|a: int, b: int| 0 <= a < c.len() && 0 <= b < c.len() && a != b implies c[a] != c[b] by {
            assert(c[a].1 == a);
            assert(c[b].1 == b);
        }
    }
    c.lemma_multiset_has_no_duplicates();
    p.lemma_multiset_has_no_duplicates_conv();
    assert forall|i: int, j: int| 0 <= i < j < p.len() implies #[trigger] p[i].1 != #[trigger] p[j].1 by {
        assert(c.contains(p[i]));
        assert(c.contains(p[j]));
        if p[i].1 == p[j].1 {
            assert(p[i] == p[j]);
        }
    }
    assert forall|i: int, j: int| 0 <= i < j < out.len() implies #[trigger] out[i].code >= #[trigger] out[j].code by {
        assert(!crate::ranking::ranks_before(p[j], p[i]));
        assert(c.contains(p[i]));
        assert(c.contains(p[j]));
    }
    assert forall|i: int, j: int|
        0 <= i < j < out.len() && out[i].code == out[j].code implies #[trigger] p[i].1 < #[trigger] p[j].1 by {
        assert(!crate::ranking::ranks_before(p[j], p[i]));
        assert(c.contains(p[i]));
        assert(c.contains(p[j]));
    }
}

/// Builds the report from per-language counts (in any order): the shown
/// languages, most code first (equal counts keep their order), and the
/// totals of their counts.
pub fn loc_report(rows: &Vec<LocRow>) -> (r: LocReport)
    ensures
        exists|p: Seq<(i128, usize)>|
            {
                &&& ranked(p)
                &&& p.to_multiset() == code_keys(shown_rows(row_views(rows@))).to_multiset()
                &&& row_views(r.rows@).len() == p.len()
                &&& forall|i: int|
                    0 <= i < p.len() ==> p[i].1 < shown_rows(row_views(rows@)).len() && (
                    #[trigger] r.rows@[i])@ == shown_rows(row_views(rows@))[p[i].1 as int]
            },
        forall|i: int, j: int|
            0 <= i < j < r.rows@.len() ==> #[trigger] r.rows@[i].code >= #[trigger] r.rows@[j].code,
        r.files == sum_files(shown_rows(row_views(rows@))),
        r.code == sum_code(shown_rows(row_views(rows@))),
        r.comments == sum_comments(shown_rows(row_views(rows@))),
        r.blanks == sum_blanks(shown_rows(row_views(rows@))),
{
    let ghost all = row_views(rows@);
    let mut kept: Vec<LocRow> = Vec::new();
    let mut files: u128 = 0;
    let mut code: u128 = 0;
    let mut comments: u128 = 0;
    let mut blanks: u128 = 0;
    let mut i: usize = 0;
    while i < rows.len()
        invariant
            i <= rows@.len(),
            all == row_views(rows@),
            row_views(kept@) == shown_rows(all.subrange(0, i as int)),
            kept@.len() <= i,
            files == sum_files(row_views(kept@)),
            code == sum_code(row_views(kept@)),
            comments == sum_comments(row_views(kept@)),
            blanks == sum_blanks(row_views(kept@)),
            files <= kept@.len() * 0x1_0000_0000_0000_0000,
            code <= kept@.len() * 0x1_0000_0000_0000_0000,
            comments <= kept@.len() * 0x1_0000_0000_0000_0000,
            blanks <= kept@.len() * 0x1_0000_0000_0000_0000,
        decreases rows@.len() - i,
    {
        let row = &rows[i];
        let ghost t = all.subrange(0, i + 1);
        assert(t.drop_last() =~= all.subrange(0, i as int));
        assert(t.last() == row@);
        if !(row.code == 0 && row.comments == 0) {
            let ghost before = kept@;
            let n = kept.len();
            assert(n * 0x1_0000_0000_0000_0000 + 0x1_0000_0000_0000_0000 <= 0x1_0000_0000_0000_0000
                * 0x1_0000_0000_0000_0000) by (nonlinear_arith)
                requires
                    n < 0x1_0000_0000_0000_0000,
            ;
            files = files + row.files as u128;
            code = code + row.code as u128;
            comments = comments + row.comments as u128;
            blanks = blanks + row.blanks as u128;
            kept.push(copy_row(row));
            assert(row_views(kept@) =~= row_views(before).push(row@));
            assert(row_views(kept@).drop_last() =~= row_views(before));
        }
        i = i + 1;
    }
    assert(all.subrange(0, rows@.len() as int) =~= all);
    let ghost sv = row_views(kept@);
    let mut keys: Vec<(i128, usize)> = Vec::new();
    let mut k: usize = 0;
    while k < kept.len()
        invariant
            k <= kept@.len(),
            sv == row_views(kept@),
            keys@ == code_keys(sv).subrange(0, k as int),
        decreases kept@.len() - k,
    {
        keys.push((kept[k].code as i128, k));
        assert(keys@ =~= code_keys(sv).subrange(0, k + 1));
        k = k + 1;
    }
    assert(keys@ =~= code_keys(sv));
    let order = rank(keys);
    proof {
        assert forall|j: int| 0 <= j < order@.len() implies #[trigger] order@[j].1 < kept@.len() by {
            assert(order@.contains(order@[j]));
            assert(order@.to_multiset().count(order@[j]) > 0);
            assert(code_keys(sv).to_multiset().count(order@[j]) > 0);
            assert(code_keys(sv).contains(order@[j]));
        }
    }
    let mut shown_list: Vec<LocRow> = Vec::new();
    let mut m: usize = 0;
    while m < order.len()
        invariant
            m <= order@.len(),
            sv == row_views(kept@),
            forall|j: int| 0 <= j < order@.len() ==> #[trigger] order@[j].1 < kept@.len(),
            shown_list@.len() == m,
            forall|j: int| 0 <= j < m ==> (#[trigger] shown_list@[j])@ == sv[order@[j].1 as int],
        decreases order@.len() - m,
    {
        let at = order[m].1;
        shown_list.push(copy_row(&kept[at]));
        m = m + 1;
    }
    proof {
        lemma_rows_by_code(sv, order@, row_views(shown_list@));
        assert forall|i: int, j: int| 0 <= i < j < shown_list@.len() implies #[trigger] shown_list@[i].code
            >= #[trigger] shown_list@[j].code by {
            assert(row_views(shown_list@)[i].code >= row_views(shown_list@)[j].code);
        }
    }
    LocReport { rows: shown_list, files, code, comments, blanks }
}

} // verus!
