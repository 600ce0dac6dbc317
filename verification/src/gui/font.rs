//! The structure of laid-out text: how runs of characters (segments) group into
//! paragraphs with their direction runs, and in which order the segments of a
//! line are placed so that right-to-left text reads right to left.
//!
//! Shaping the segments and measuring them is the text shaper's work; breaking
//! lines by measured width is the layout's. This module decides the rest.
use vstd::prelude::*;

verus! {

/// What paragraph planning reads of a segment: its direction and whether it is
/// a paragraph separator.
#[derive(Clone, Copy, Debug, PartialEq, Eq, Structural)]
pub struct SegmentInfo {
    pub rtl: bool,
    pub separator: bool,
}

/// The plan of one paragraph: its direction (that of its first segment), the
/// number of its segments (a separator ends a paragraph and belongs to it), and
/// its direction runs: each run is given by the index where it ends, counted in
/// segments of the paragraph, and its direction.
#[derive(Clone, Debug)]
pub struct ParaPlan {
    pub rtl: bool,
    pub len: usize,
    pub runs: Vec<(usize, bool)>,
}

/// The abstract plan of one paragraph.
pub ghost struct ParaModel {
    pub rtl: bool,
    pub len: nat,
    pub runs: Seq<(usize, bool)>,
}

/// The direction changes of `rs`: for each index `j` where the direction differs
/// from the one before, the pair of `j` and the direction before.
pub open spec fn changes(rs: Seq<bool>) -> Seq<(usize, bool)>
    decreases rs.len(),
{
    if rs.len() <= 1 {
        seq![]
    } else {
        let init = rs.drop_last();
        if rs.last() != init.last() {
            changes(init).push(((rs.len() - 1) as usize, init.last()))
        } else {
            changes(init)
        }
    }
}

/// The direction runs of a paragraph whose segments have the directions `rs`:
/// each run is given by the index where it ends and its direction; a run ends
/// where the direction changes, and the last one at `end`.
pub open spec fn runs_of(rs: Seq<bool>, end: nat) -> Seq<(usize, bool)> {
    if rs.len() == 0 {
        seq![]
    } else {
        changes(rs).push((end as usize, rs.last()))
    }
}

/// The direction changes are exactly the indices where the direction differs
/// from the one before, in increasing order, each with the direction that ends
/// there.
pub proof fn law_changes_mark_direction_changes(rs: Seq<bool>)
    requires
        rs.len() <= usize::MAX,
    ensures
        forall|i: int|
            0 <= i < changes(rs).len() ==> {
                &&& 0 < (#[trigger] changes(rs)[i]).0 < rs.len()
                &&& rs[changes(rs)[i].0 as int] != rs[changes(rs)[i].0 - 1]
                &&& changes(rs)[i].1 == rs[changes(rs)[i].0 - 1]
            },
        forall|i: int, j: int| 0 <= i < j < changes(rs).len() ==> changes(rs)[i].0 < changes(rs)[j].0,
        forall|j: int|
            0 < j < rs.len() && #[trigger] rs[j] != rs[j - 1] ==> exists|i: int|
                0 <= i < changes(rs).len() && (#[trigger] changes(rs)[i]).0 == j,
    decreases rs.len(),
{
    if rs.len() > 1 {
        let init = rs.drop_last();
        law_changes_mark_direction_changes(init);
        let c0 = changes(init);
        let c = changes(rs);
        let n = rs.len();
        assert(init.last() == rs[n - 2]);
        assert forall|i: int| 0 <= i < c0.len() implies (#[trigger] c0[i]).0 < n - 1 by {}
        if rs.last() != init.last() {
            assert(c == c0.push(((n - 1) as usize, init.last())));
            assert forall|j: int|
                0 < j < rs.len() && #[trigger] rs[j] != rs[j - 1] implies exists|i: int|
                0 <= i < c.len() && (#[trigger] c[i]).0 == j by {
                if j == n - 1 {
                    assert(c[c.len() - 1].0 == j);
                } else {
                    assert(init[j] == rs[j] && init[j - 1] == rs[j - 1]);
                    let i = choose|i: int| 0 <= i < c0.len() && (#[trigger] c0[i]).0 == j;
                    assert(c[i] == c0[i]);
                }
            }
        } else {
            assert(c == c0);
            assert forall|j: int|
                0 < j < rs.len() && #[trigger] rs[j] != rs[j - 1] implies exists|i: int|
                0 <= i < c.len() && (#[trigger] c[i]).0 == j by {
                assert(j != n - 1);
                assert(init[j] == rs[j] && init[j - 1] == rs[j - 1]);
            }
        }
    }
}

/// The plan of a paragraph made of the segments `segs`: when it ends with a
/// separator, its last run ends before the separator.
pub open spec fn para_of(segs: Seq<SegmentInfo>, closed: bool) -> ParaModel {
    let rs = segs.map_values(|s: SegmentInfo| s.rtl);
    ParaModel {
        rtl: segs.len() > 0 && segs[0].rtl,
        len: segs.len(),
        runs: runs_of(rs, if closed { (segs.len() - 1) as nat } else { segs.len() }),
    }
}

/// The index just past the first separator of `segs` at or after `from`, or
/// `segs.len()` when there is none.
pub open spec fn para_end(segs: Seq<SegmentInfo>, from: int) -> int
    decreases segs.len() - from,
{
    if from >= segs.len() {
        segs.len() as int
    } else if segs[from].separator {
        from + 1
    } else {
        para_end(segs, from + 1)
    }
}

/// The paragraphs of `segs` from index `from` on: each ends with a separator, but
/// the last, which may be empty.
pub open spec fn paras_from(segs: Seq<SegmentInfo>, from: int) -> Seq<ParaModel>
    decreases segs.len() - from, 1int,
{
    if from < 0 || from > segs.len() {
        seq![]
    } else if from == segs.len() {
        seq![ParaModel { rtl: false, len: 0, runs: seq![] }]
    } else {
        let end = para_end(segs, from);
        if end <= from || end > segs.len() {
            seq![]
        } else if segs[end - 1].separator {
            seq![para_of(segs.subrange(from, end), true)] + paras_from(segs, end)
        } else {
            seq![para_of(segs.subrange(from, end), false)]
        }
    }
}

/// The paragraphs of `segs`.
pub open spec fn paragraphs(segs: Seq<SegmentInfo>) -> Seq<ParaModel> {
    paras_from(segs, 0)
}

/// The number of segments of the paragraphs `ps` together.
pub open spec fn total_len(ps: Seq<ParaModel>) -> nat
    decreases ps.len(),
{
    if ps.len() == 0 {
        0
    } else {
        ps[0].len + total_len(ps.drop_first())
    }
}

/// Every segment belongs to exactly one paragraph: the paragraphs, in order,
/// cover the segments, and there is always at least one.
pub proof fn law_paragraphs_cover_segments(segs: Seq<SegmentInfo>)
    ensures
        total_len(paragraphs(segs)) == segs.len(),
        paragraphs(segs).len() >= 1,
{
    lemma_paras_cover(segs, 0);
}

proof fn lemma_paras_cover(segs: Seq<SegmentInfo>, from: int)
    requires
        0 <= from <= segs.len(),
    ensures
        total_len(paras_from(segs, from)) == segs.len() - from,
        paras_from(segs, from).len() >= 1,
    decreases segs.len() - from,
{
    if from == segs.len() {
        let ps = paras_from(segs, from);
        assert(ps.drop_first() =~= Seq::<ParaModel>::empty());
        assert(total_len(ps.drop_first()) == 0);
        assert(total_len(ps) == ps[0].len + total_len(ps.drop_first()));
    } else {
        lemma_para_end_bounds(segs, from);
        let end = para_end(segs, from);
        let ps = paras_from(segs, from);
        assert(ps[0].len == end - from);
        if segs[end - 1].separator {
            lemma_paras_cover(segs, end);
            assert(ps.drop_first() =~= paras_from(segs, end));
        } else {
            assert(end == segs.len());
            assert(ps.drop_first() =~= Seq::<ParaModel>::empty());
            assert(total_len(ps.drop_first()) == 0);
        }
        assert(total_len(ps) == ps[0].len + total_len(ps.drop_first()));
    }
}

/// Each paragraph takes the direction of its first segment: paragraph `k`
/// starts at the segment that follows the segments of the paragraphs before it.
pub proof fn law_paragraph_takes_first_direction(segs: Seq<SegmentInfo>)
    ensures
        forall|k: int|
            0 <= k < paragraphs(segs).len() && (#[trigger] paragraphs(segs)[k]).len > 0 ==> {
                &&& total_len(paragraphs(segs).take(k)) < segs.len()
                &&& paragraphs(segs)[k].rtl == segs[total_len(paragraphs(segs).take(k)) as int].rtl
            },
{
    lemma_paras_direction(segs, 0);
    assert forall|k: int|
        0 <= k < paragraphs(segs).len() && (#[trigger] paragraphs(segs)[k]).len > 0 implies {
            &&& total_len(paragraphs(segs).take(k)) < segs.len()
            &&& paragraphs(segs)[k].rtl == segs[total_len(paragraphs(segs).take(k)) as int].rtl
        } by {
        assert(paras_from(segs, 0)[k] == paragraphs(segs)[k]);
    }
}

proof fn lemma_paras_direction(segs: Seq<SegmentInfo>, from: int)
    requires
        0 <= from <= segs.len(),
    ensures
        forall|k: int|
            0 <= k < paras_from(segs, from).len() && (#[trigger] paras_from(segs, from)[k]).len > 0 ==> {
                &&& from + total_len(paras_from(segs, from).take(k)) < segs.len()
                &&& paras_from(segs, from)[k].rtl == segs[from + total_len(paras_from(segs, from).take(k))].rtl
            },
    decreases segs.len() - from,
{
    let ps = paras_from(segs, from);
    if from < segs.len() {
        lemma_para_end_bounds(segs, from);
        let end = para_end(segs, from);
        assert(ps[0].len == end - from);
        assert(ps[0].rtl == segs[from].rtl) by {
            assert(segs.subrange(from, end)[0] == segs[from]);
        }
        if segs[end - 1].separator {
            lemma_paras_direction(segs, end);
            let rest = paras_from(segs, end);
            assert(ps == seq![ps[0]] + rest);
            assert forall|k: int| 0 <= k < ps.len() && (#[trigger] ps[k]).len > 0 implies {
                &&& from + total_len(ps.take(k)) < segs.len()
                &&& ps[k].rtl == segs[from + total_len(ps.take(k))].rtl
            } by {
                if k == 0 {
                    assert(ps.take(0) =~= Seq::<ParaModel>::empty());
                    assert(total_len(ps.take(0)) == 0);
                } else {
                    assert(ps[k] == rest[k - 1]);
                    assert(ps.take(k).drop_first() =~= rest.take(k - 1));
                    assert(ps.take(k)[0] == ps[0]);
                    assert(total_len(ps.take(k)) == ps[0].len + total_len(rest.take(k - 1)));
                }
            }
        } else {
            assert(ps.len() == 1);
            assert forall|k: int| 0 <= k < ps.len() && (#[trigger] ps[k]).len > 0 implies {
                &&& from + total_len(ps.take(k)) < segs.len()
                &&& ps[k].rtl == segs[from + total_len(ps.take(k))].rtl
            } by {
                assert(ps.take(0) =~= Seq::<ParaModel>::empty());
                assert(total_len(ps.take(0)) == 0);
            }
        }
    }
}

/// The number of separators among the segments from index `from` on.
pub open spec fn separators_from(segs: Seq<SegmentInfo>, from: int) -> nat
    decreases segs.len() - from,
{
    if from < 0 || from >= segs.len() {
        0
    } else {
        (if segs[from].separator {
            1nat
        } else {
            0nat
        }) + separators_from(segs, from + 1)
    }
}

/// There is one paragraph per separator, and one more after the last.
pub proof fn law_one_paragraph_per_separator(segs: Seq<SegmentInfo>)
    ensures
        paragraphs(segs).len() == separators_from(segs, 0) + 1,
{
    lemma_paras_count(segs, 0);
}

/// The separators from `from` on are the one that ends the paragraph starting
/// at `from` (if it ends with one) and those after it.
proof fn lemma_separators_split(segs: Seq<SegmentInfo>, from: int)
    requires
        0 <= from < segs.len(),
    ensures
        separators_from(segs, from) == (if segs[para_end(segs, from) - 1].separator {
            1nat
        } else {
            0nat
        }) + separators_from(segs, para_end(segs, from)),
    decreases segs.len() - from,
{
    assert(separators_from(segs, from) == (if segs[from].separator {
        1nat
    } else {
        0nat
    }) + separators_from(segs, from + 1));
    if segs[from].separator {
        assert(para_end(segs, from) == from + 1);
    } else {
        assert(para_end(segs, from) == para_end(segs, from + 1));
        if from + 1 < segs.len() {
            lemma_separators_split(segs, from + 1);
        } else {
            assert(para_end(segs, from + 1) == segs.len());
            assert(separators_from(segs, from + 1) == 0);
        }
    }
}

proof fn lemma_paras_count(segs: Seq<SegmentInfo>, from: int)
    requires
        0 <= from <= segs.len(),
    ensures
        paras_from(segs, from).len() == separators_from(segs, from) + 1,
    decreases segs.len() - from,
{
    if from < segs.len() {
        lemma_para_end_bounds(segs, from);
        lemma_separators_split(segs, from);
        let end = para_end(segs, from);
        if segs[end - 1].separator {
            lemma_paras_count(segs, end);
        } else {
            assert(end == segs.len());
        }
    }
}

pub open spec fn plan_model(p: ParaPlan) -> ParaModel {
    ParaModel { rtl: p.rtl, len: p.len as nat, runs: p.runs@ }
}

proof fn lemma_para_end_bounds(segs: Seq<SegmentInfo>, from: int)
    requires
        0 <= from < segs.len(),
    ensures
        from < para_end(segs, from) <= segs.len(),
        forall|j: int| from <= j < para_end(segs, from) - 1 ==> !(#[trigger] segs[j]).separator,
        para_end(segs, from) < segs.len() ==> segs[para_end(segs, from) - 1].separator,
    decreases segs.len() - from,
{
    if !segs[from].separator {
        assert(para_end(segs, from) == para_end(segs, from + 1));
        if from + 1 < segs.len() {
            lemma_para_end_bounds(segs, from + 1);
        } else {
            assert(para_end(segs, from + 1) == segs.len());
        }
    }
}

/// The index just past the first separator at or after `from`, or the length.
fn find_para_end(segs: &Vec<SegmentInfo>, from: usize) -> (end: usize)
    requires
        from < segs@.len(),
    ensures
        end == para_end(segs@, from as int),
{
    let n = segs.len();
    let mut j = from;
    while j < n
        invariant
            n == segs@.len(),
            from <= j <= n,
            para_end(segs@, from as int) == para_end(segs@, j as int),
        decreases n - j,
    {
        if segs[j].separator {
            return j + 1;
        }
        j += 1;
    }
    j
}

/// The plan of the paragraph of the segments `from..end`.
fn plan_para(segs: &Vec<SegmentInfo>, from: usize, end: usize, closed: bool) -> (p: ParaPlan)
    requires
        from < end <= segs@.len(),
    ensures
        plan_model(p) == para_of(segs@.subrange(from as int, end as int), closed),
{
    let ghost para = segs@.subrange(from as int, end as int);
    let ghost rs = para.map_values(|s: SegmentInfo| s.rtl);
    let mut runs: Vec<(usize, bool)> = Vec::new();
    let mut k: usize = 1;
    while k < end - from
        invariant
            from < end <= segs@.len(),
            para == segs@.subrange(from as int, end as int),
            rs == para.map_values(|s: SegmentInfo| s.rtl),
            1 <= k <= end - from,
            runs@ == changes(rs.take(k as int)),
        decreases end - from - k,
    {
        let before = segs[from + k - 1].rtl;
        let now = segs[from + k].rtl;
        proof {
            let t = rs.take(k + 1);
            assert(t.drop_last() =~= rs.take(k as int));
            assert(t.last() == now);
            assert(t.drop_last().last() == before);
        }
        if now != before {
            runs.push((k, before));
        }
        k += 1;
    }
    assert(rs.take((end - from) as int) =~= rs);
    let last = segs[end - 1].rtl;
    let stop = if closed {
        end - from - 1
    } else {
        end - from
    };
    runs.push((stop, last));
    ParaPlan { rtl: segs[from].rtl, len: end - from, runs }
}

/// The paragraphs of the segments `segs`, in order.
pub fn plan_paragraphs(segs: &Vec<SegmentInfo>) -> (plans: Vec<ParaPlan>)
    ensures
        plans@.map_values(|p: ParaPlan| plan_model(p)) == paragraphs(segs@),
{
    let n = segs.len();
    let mut plans: Vec<ParaPlan> = Vec::new();
    let mut from: usize = 0;
    loop
        invariant
            n == segs@.len(),
            from <= n,
            plans@.map_values(|p: ParaPlan| plan_model(p)) + paras_from(segs@, from as int)
                == paragraphs(segs@),
        decreases n - from,
    {
        if from == n {
            plans.push(ParaPlan { rtl: false, len: 0, runs: Vec::new() });
            return plans;
        }
        let end = find_para_end(segs, from);
        proof {
            lemma_para_end_bounds(segs@, from as int);
        }
        let closed = segs[end - 1].separator;
        let p = plan_para(segs, from, end, closed);
        plans.push(p);
        if !closed {
            return plans;
        }
        from = end;
    }
}


/// Where the segments of a line go as they are laid out one after the other.
///
/// In a left-to-right paragraph each right-to-left run is reversed in place: a
/// right-to-left segment goes to the start of its run. In a right-to-left
/// paragraph each segment goes to the front of the line, but a left-to-right
/// run keeps its order: its segments go one after the other.
#[derive(Clone, Copy, Debug, PartialEq, Eq, Structural)]
pub struct LineOrder {
    pub para_rtl: bool,
    /// Left-to-right paragraph: the direction of the segment placed last, and
    /// where the current right-to-left run starts.
    pub prev_rtl: bool,
    pub rtl_start: usize,
    /// Right-to-left paragraph: where the segment of the current left-to-right
    /// run placed last went.
    pub ltr_pos: Option<usize>,
}

/// The order state for the start of a line.
pub open spec fn line_start(para_rtl: bool) -> LineOrder {
    LineOrder { para_rtl, prev_rtl: false, rtl_start: 0, ltr_pos: None }
}

/// Where a segment of direction `rtl` goes in a line of `len` segments, and the
/// state after it.
pub open spec fn place_spec(o: LineOrder, rtl: bool, len: nat) -> (LineOrder, nat) {
    if !o.para_rtl {
        let start = if o.prev_rtl != rtl && rtl {
            len as usize
        } else {
            o.rtl_start
        };
        (LineOrder { prev_rtl: rtl, rtl_start: start, ..o }, if rtl {
            start as nat
        } else {
            len
        })
    } else if rtl {
        (LineOrder { ltr_pos: None, ..o }, 0)
    } else {
        match o.ltr_pos {
            None => (LineOrder { ltr_pos: Some(0usize), ..o }, 0),
            Some(x) => (LineOrder { ltr_pos: Some((x + 1) as usize), ..o }, (x + 1) as nat),
        }
    }
}

/// The state fits a line of `len` segments: every position it holds is one a
/// segment can be inserted at.
pub open spec fn fits(o: LineOrder, len: nat) -> bool {
    &&& o.rtl_start <= len
    &&& o.ltr_pos matches Some(x) ==> x < len
}

/// The state and the line (segment indices, in display order) after placing the
/// segments of directions `rtls` one after the other.
pub open spec fn order_of(rtls: Seq<bool>, para_rtl: bool) -> (LineOrder, Seq<usize>)
    decreases rtls.len(),
{
    if rtls.len() == 0 {
        (line_start(para_rtl), seq![])
    } else {
        let (o, line) = order_of(rtls.drop_last(), para_rtl);
        let (o2, at) = place_spec(o, rtls.last(), line.len());
        (o2, line.insert(at as int, (rtls.len() - 1) as usize))
    }
}

/// Placing segments keeps the paragraph's direction and adds one segment each.
proof fn lemma_order_shape(rtls: Seq<bool>, para_rtl: bool)
    ensures
        order_of(rtls, para_rtl).0.para_rtl == para_rtl,
        order_of(rtls, para_rtl).1.len() == rtls.len(),
        fits(order_of(rtls, para_rtl).0, rtls.len()),
    decreases rtls.len(),
{
    if rtls.len() > 0 {
        let init = rtls.drop_last();
        lemma_order_shape(init, para_rtl);
        let (o, line) = order_of(init, para_rtl);
        let (o2, at) = place_spec(o, rtls.last(), line.len());
        assert(at <= line.len());
        assert(line.insert(at as int, (rtls.len() - 1) as usize).len() == rtls.len());
    }
}

/// Every segment of a line is shown exactly once: the display order is a
/// permutation of the segment indices.
pub proof fn law_line_shows_each_segment_once(rtls: Seq<bool>, para_rtl: bool)
    requires
        rtls.len() <= usize::MAX,
    ensures
        order_of(rtls, para_rtl).1.len() == rtls.len(),
        order_of(rtls, para_rtl).1.no_duplicates(),
        forall|k: int| 0 <= k < rtls.len() ==> (#[trigger] order_of(rtls, para_rtl).1[k]) < rtls.len(),
        forall|i: usize| i < rtls.len() ==> #[trigger] order_of(rtls, para_rtl).1.contains(i),
    decreases rtls.len(),
{
    lemma_order_shape(rtls, para_rtl);
    if rtls.len() > 0 {
        let n = rtls.len();
        let init = rtls.drop_last();
        law_line_shows_each_segment_once(init, para_rtl);
        lemma_order_shape(init, para_rtl);
        let (o, line0) = order_of(init, para_rtl);
        let (o2, at) = place_spec(o, rtls.last(), line0.len());
        let new = (n - 1) as usize;
        let line = line0.insert(at as int, new);
        assert(order_of(rtls, para_rtl).1 == line);
        assert forall|k: int| 0 <= k < n implies (#[trigger] line[k]) < n by {
            if k < at {
                assert(line[k] == line0[k]);
            } else if k > at {
                assert(line[k] == line0[k - 1]);
            }
        }
        assert forall|a: int, b: int| 0 <= a < line.len() && 0 <= b < line.len() && a != b implies line[a]
            != line[b] by {
            if a != at && b != at {
                let a0 = if a < at { a } else { a - 1 };
                let b0 = if b < at { b } else { b - 1 };
                assert(line[a] == line0[a0]);
                assert(line[b] == line0[b0]);
            } else if a == at {
                let b0 = if b < at { b } else { b - 1 };
                assert(line[b] == line0[b0]);
            } else {
                let a0 = if a < at { a } else { a - 1 };
                assert(line[a] == line0[a0]);
            }
        }
        assert forall|i: usize| i < n implies #[trigger] line.contains(i) by {
            if i == n - 1 {
                assert(line[at as int] == new);
            } else {
                assert(line0.contains(i));
                let j = choose|j: int| 0 <= j < line0.len() && line0[j] == i;
                if j < at {
                    assert(line[j] == line0[j]);
                } else {
                    assert(line[j + 1] == line0[j]);
                }
            }
        }
    }
}

/// What the order state remembers of a line: in a right-to-left paragraph,
/// after a left-to-right segment, where that segment went; in a left-to-right
/// paragraph, after a right-to-left segment, where its run starts, which is
/// where that segment went.
proof fn lemma_order_state(rtls: Seq<bool>, para_rtl: bool)
    requires
        rtls.len() <= usize::MAX,
    ensures
        ({
            let (o, line) = order_of(rtls, para_rtl);
            let n = rtls.len();
            &&& para_rtl ==> (o.ltr_pos is Some <==> (n > 0 && !rtls[n - 1]))
            &&& para_rtl ==> (o.ltr_pos matches Some(x) ==> x < n && line[x as int] == n - 1)
            &&& !para_rtl ==> o.prev_rtl == (n > 0 && rtls[n - 1])
            &&& !para_rtl && n > 0 && rtls[n - 1] ==> o.rtl_start < n && line[o.rtl_start as int] == n - 1
        }),
    decreases rtls.len(),
{
    lemma_order_shape(rtls, para_rtl);
    if rtls.len() > 0 {
        let init = rtls.drop_last();
        lemma_order_state(init, para_rtl);
        lemma_order_shape(init, para_rtl);
        let (o, line) = order_of(init, para_rtl);
        let (o2, at) = place_spec(o, rtls.last(), line.len());
        let new_line = line.insert(at as int, (rtls.len() - 1) as usize);
        assert(order_of(rtls, para_rtl) == (o2, new_line));
        assert(rtls[rtls.len() - 1] == rtls.last());
        assert(new_line[at as int] == rtls.len() - 1);
    }
}

/// How a right-to-left paragraph's line grows by one segment `b` after the
/// segments `rtls`: a right-to-left segment, or a left-to-right one that starts
/// a new left-to-right run, goes to the front of the line; a left-to-right
/// segment that follows another goes just after it, so that the run keeps its
/// order.
pub proof fn law_rtl_line_grows(rtls: Seq<bool>, b: bool)
    requires
        rtls.len() < usize::MAX,
    ensures
        ({
            let n = rtls.len();
            let line = order_of(rtls, true).1;
            let longer = order_of(rtls.push(b), true).1;
            &&& (b || n == 0 || rtls[n - 1]) ==> longer == seq![n as usize] + line
            &&& (b || n == 0 || rtls[n - 1]) ==> longer[0] == n
            &&& forall|k: int|
                !b && n > 0 && !rtls[n - 1] && 0 <= k < line.len() && #[trigger] line[k] == n - 1 ==> longer
                    == line.insert(k + 1, n as usize)
        }),
{
    let n = rtls.len();
    let all = rtls.push(b);
    assert(all.drop_last() =~= rtls);
    assert(all.last() == b);
    lemma_order_state(rtls, true);
    lemma_order_shape(rtls, true);
    law_line_shows_each_segment_once(rtls, true);
    let (o, line) = order_of(rtls, true);
    assert(order_of(all, true).1 == line.insert(place_spec(o, b, line.len()).1 as int, n as usize));
    assert(line.insert(0, n as usize) =~= seq![n as usize] + line);
    assert forall|k: int|
        !b && n > 0 && !rtls[n - 1] && 0 <= k < line.len() && #[trigger] line[k] == n - 1 implies order_of(
        all,
        true,
    ).1 == line.insert(k + 1, n as usize) by {
        let x = o.ltr_pos->0;
        assert(line[x as int] == n - 1);
        assert(k == x);
    }
}

/// How a left-to-right paragraph's line grows by one segment `b` after the
/// segments `rtls`: a left-to-right segment, or a right-to-left one that starts
/// a new right-to-left run, goes to the end of the line; a right-to-left segment
/// that follows another goes just before it, so that the run is reversed.
pub proof fn law_ltr_line_grows(rtls: Seq<bool>, b: bool)
    requires
        rtls.len() < usize::MAX,
    ensures
        ({
            let n = rtls.len();
            let line = order_of(rtls, false).1;
            let longer = order_of(rtls.push(b), false).1;
            &&& (!b || n == 0 || !rtls[n - 1]) ==> longer == line.push(n as usize)
            &&& forall|k: int|
                b && n > 0 && rtls[n - 1] && 0 <= k < line.len() && #[trigger] line[k] == n - 1 ==> longer
                    == line.insert(k, n as usize)
        }),
{
    let n = rtls.len();
    let all = rtls.push(b);
    assert(all.drop_last() =~= rtls);
    assert(all.last() == b);
    lemma_order_state(rtls, false);
    lemma_order_shape(rtls, false);
    law_line_shows_each_segment_once(rtls, false);
    let (o, line) = order_of(rtls, false);
    assert(order_of(all, false).1 == line.insert(place_spec(o, b, line.len()).1 as int, n as usize));
    assert(line.insert(line.len() as int, n as usize) =~= line.push(n as usize));
    assert forall|k: int|
        b && n > 0 && rtls[n - 1] && 0 <= k < line.len() && #[trigger] line[k] == n - 1 implies order_of(
        all,
        false,
    ).1 == line.insert(k, n as usize) by {
        assert(line[o.rtl_start as int] == n - 1);
        assert(k == o.rtl_start);
    }
}

/// In a left-to-right paragraph, a line of left-to-right segments keeps their
/// order.
pub proof fn law_ltr_line_keeps_order(rtls: Seq<bool>)
    requires
        forall|i: int| 0 <= i < rtls.len() ==> !rtls[i],
    ensures
        order_of(rtls, false).1 == Seq::new(rtls.len(), |i: int| i as usize),
    decreases rtls.len(),
{
    if rtls.len() > 0 {
        let init = rtls.drop_last();
        law_ltr_line_keeps_order(init);
        lemma_order_shape(init, false);
        let (o, line) = order_of(init, false);
        assert(!rtls[rtls.len() - 1]);
        assert(place_spec(o, rtls.last(), line.len()).1 == line.len());
        assert(order_of(rtls, false).1 == line.insert(line.len() as int, (rtls.len() - 1) as usize));
        assert(line.insert(line.len() as int, (rtls.len() - 1) as usize) =~= Seq::new(
            rtls.len(),
            |i: int| i as usize,
        ));
    }
}

/// In a right-to-left paragraph, a line of right-to-left segments shows them in
/// reverse order.
pub proof fn law_rtl_line_reverses(rtls: Seq<bool>)
    requires
        forall|i: int| 0 <= i < rtls.len() ==> rtls[i],
    ensures
        order_of(rtls, true).1 == Seq::new(rtls.len(), |i: int| (rtls.len() - 1 - i) as usize),
    decreases rtls.len(),
{
    if rtls.len() > 0 {
        let init = rtls.drop_last();
        law_rtl_line_reverses(init);
        lemma_order_shape(init, true);
        let (o, line) = order_of(init, true);
        assert(rtls[rtls.len() - 1]);
        assert(place_spec(o, rtls.last(), line.len()).1 == 0);
        assert(order_of(rtls, true).1 == line.insert(0, (rtls.len() - 1) as usize));
        assert(line.insert(0, (rtls.len() - 1) as usize) =~= Seq::new(
            rtls.len(),
            |i: int| (rtls.len() - 1 - i) as usize,
        ));
    }
}

impl LineOrder {
    pub fn new(para_rtl: bool) -> (o: LineOrder)
        ensures
            o == line_start(para_rtl),
    {
        LineOrder { para_rtl, prev_rtl: false, rtl_start: 0, ltr_pos: None }
    }

    /// Starts a new line.
    pub fn new_line(&mut self)
        ensures
            *final(self) == line_start(old(self).para_rtl),
    {
        self.prev_rtl = false;
        self.rtl_start = 0;
        self.ltr_pos = None;
    }

    /// Where a segment of direction `rtl` goes in a line of `len` segments.
    /// Whether the state can place a segment on a line of `len` segments.
    pub fn fits_line(&self, len: usize) -> (r: bool)
        ensures
            r == fits(*self, len as nat),
    {
        self.rtl_start <= len && match self.ltr_pos {
            Some(x) => x < len,
            None => true,
        }
    }

    pub fn place(&mut self, rtl: bool, len: usize) -> (at: usize)
        requires
            fits(*old(self), len as nat),
            len < usize::MAX,
        ensures
            (*final(self), at as nat) == place_spec(*old(self), rtl, len as nat),
            at <= len,
            fits(*final(self), (len + 1) as nat),
    {
        if !self.para_rtl {
            if self.prev_rtl != rtl {
                self.prev_rtl = rtl;
                if rtl {
                    self.rtl_start = len;
                }
            }
            if rtl {
                self.rtl_start
            } else {
                len
            }
        } else if rtl {
            self.ltr_pos = None;
            0
        } else {
            match self.ltr_pos {
                None => {
                    self.ltr_pos = Some(0);
                    0
                },
                Some(x) => {
                    self.ltr_pos = Some(x + 1);
                    x + 1
                },
            }
        }
    }
}

/// The display order of a line whose segments have the directions `rtls`, in a
/// paragraph of direction `para_rtl`.
pub fn order_line(rtls: &Vec<bool>, para_rtl: bool) -> (line: Vec<usize>)
    ensures
        line@ == order_of(rtls@, para_rtl).1,
{
    let n = rtls.len();
    let mut o = LineOrder::new(para_rtl);
    let mut line: Vec<usize> = Vec::new();
    let mut k: usize = 0;
    while k < n
        invariant
            n == rtls@.len(),
            k <= n,
            (o, line@) == order_of(rtls@.take(k as int), para_rtl),
            line@.len() == k,
            fits(o, k as nat),
        decreases n - k,
    {
        proof {
            assert(rtls@.take(k + 1).drop_last() =~= rtls@.take(k as int));
        }
        let at = o.place(rtls[k], line.len());
        line.insert(at, k);
        k += 1;
    }
    assert(rtls@.take(n as int) =~= rtls@);
    line
}

} // verus!
