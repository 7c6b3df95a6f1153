//! Per-process swap samples and their aggregation.
//!
//! Raw samples arrive one per process. The display list either shows them
//! individually or grouped by process name, with the group's value the sum
//! of its members' kilobytes and its leading column the member count.
//! Values stay in raw kilobytes here; scaling to the display unit happens
//! only when row text is produced.

use vstd::prelude::*;

verus! {

/// One raw per-process sample handed in by the acquisition boundary.
#[derive(Debug, Clone)]
pub struct RawSample {
    pub pid: u64,
    pub name: String,
    pub swap_kb: u64,
}

/// What the leading column of a process record identifies.
#[derive(Debug, Clone, Copy, PartialEq, Eq, Structural)]
pub enum RowTag {
    /// A single process, by its process id.
    Individual { pid: u64 },
    /// A group of same-named processes, by its member count.
    Aggregated { count: u64 },
}

/// One display-ready process record. The value is kept as raw kilobytes;
/// scaling to the selected unit happens at formatting time only.
#[derive(Debug, Clone)]
pub struct ProcessSwapInfo {
    pub tag: RowTag,
    pub name: String,
    pub swap_kb: u64,
}

/// Sum of the kilobyte values of all records.
pub open spec fn kb_sum(s: Seq<ProcessSwapInfo>) -> int
    decreases s.len(),
{
    if s.len() == 0 {
        0
    } else {
        kb_sum(s.drop_last()) + s.last().swap_kb
    }
}

/// How many processes a record stands for: a group's member count, one
/// for an individual record.
pub open spec fn member_count(p: ProcessSwapInfo) -> int {
    match p.tag {
        RowTag::Individual { .. } => 1,
        RowTag::Aggregated { count } => count as int,
    }
}

/// Sum of the member counts of all records.
pub open spec fn count_sum(s: Seq<ProcessSwapInfo>) -> int
    decreases s.len(),
{
    if s.len() == 0 {
        0
    } else {
        count_sum(s.drop_last()) + member_count(s.last())
    }
}

/// Sum of the kilobyte values of the records named `name`.
pub open spec fn name_kb_sum(s: Seq<ProcessSwapInfo>, name: Seq<char>) -> int
    decreases s.len(),
{
    if s.len() == 0 {
        0
    } else {
        name_kb_sum(s.drop_last(), name) + if s.last().name@ == name {
            s.last().swap_kb as int
        } else {
            0
        }
    }
}

/// How many records are named `name`.
pub open spec fn name_rec_count(s: Seq<ProcessSwapInfo>, name: Seq<char>) -> int
    decreases s.len(),
{
    if s.len() == 0 {
        0
    } else {
        name_rec_count(s.drop_last(), name) + if s.last().name@ == name {
            1int
        } else {
            0int
        }
    }
}

/// Some record is named `name`.
pub open spec fn has_name(s: Seq<ProcessSwapInfo>, name: Seq<char>) -> bool {
    exists|i: int| 0 <= i < s.len() && s[i].name@ == name
}

/// No two records share a name.
pub open spec fn distinct_names(s: Seq<ProcessSwapInfo>) -> bool {
    forall|i: int, j: int| 0 <= i < j < s.len() ==> s[i].name@ != s[j].name@
}

/// Records are ordered by descending kilobyte value.
pub open spec fn sorted_desc(s: Seq<ProcessSwapInfo>) -> bool {
    forall|i: int, j: int| 0 <= i <= j < s.len() ==> s[i].swap_kb >= s[j].swap_kb
}

/// Every record is an individual (non-grouped) one.
pub open spec fn all_individual(s: Seq<ProcessSwapInfo>) -> bool {
    forall|i: int| 0 <= i < s.len() ==> (#[trigger] s[i].tag) is Individual
}

/// Sum of the kilobyte values of raw samples.
pub open spec fn raw_kb_sum(s: Seq<RawSample>) -> int
    decreases s.len(),
{
    if s.len() == 0 {
        0
    } else {
        raw_kb_sum(s.drop_last()) + s.last().swap_kb
    }
}

/// The individual display record of one raw sample.
pub open spec fn display_rec(s: RawSample) -> ProcessSwapInfo {
    ProcessSwapInfo { tag: RowTag::Individual { pid: s.pid }, name: s.name, swap_kb: s.swap_kb }
}

/// The individual display list of a raw sample list, in the given order.
pub open spec fn display_seq(samples: Seq<RawSample>) -> Seq<ProcessSwapInfo> {
    samples.map_values(|s: RawSample| display_rec(s))
}

/// The display list carries the raw kilobyte values unchanged, one
/// individual record per sample.
pub proof fn lemma_display_seq_sum(samples: Seq<RawSample>)
    ensures
        kb_sum(display_seq(samples)) == raw_kb_sum(samples),
        all_individual(display_seq(samples)),
    decreases samples.len(),
{
    if samples.len() > 0 {
        lemma_display_seq_sum(samples.drop_last());
        assert(display_seq(samples).drop_last() =~= display_seq(samples.drop_last()));
        assert(display_seq(samples).last() == display_rec(samples.last()));
    }
}

/// Turn raw samples into individual display records, in the given order.
pub fn to_display(samples: &Vec<RawSample>) -> (r: Vec<ProcessSwapInfo>)
    ensures
        r@ == display_seq(samples@),
{
    let mut r: Vec<ProcessSwapInfo> = Vec::new();
    let mut idx: usize = 0;
    while idx < samples.len()
        invariant
            idx <= samples@.len(),
            r@ == display_seq(samples@.take(idx as int)),
        decreases samples@.len() - idx,
    {
        let s = &samples[idx];
        r.push(ProcessSwapInfo { tag: RowTag::Individual { pid: s.pid }, name: s.name.clone(), swap_kb: s.swap_kb });
        proof {
            assert(r@ =~= display_seq(samples@.take(idx + 1)));
        }
        idx = idx + 1;
    }
    proof {
        assert(samples@.take(samples@.len() as int) =~= samples@);
    }
    r
}

/// Sums of kilobyte values are never negative.
pub proof fn lemma_kb_sum_nonneg(s: Seq<ProcessSwapInfo>)
    ensures
        kb_sum(s) >= 0,
    decreases s.len(),
{
    if s.len() > 0 {
        lemma_kb_sum_nonneg(s.drop_last());
    }
}

/// A prefix never sums to more than the whole list.
pub proof fn lemma_kb_sum_take_le(s: Seq<ProcessSwapInfo>, i: int)
    requires
        0 <= i <= s.len(),
    ensures
        kb_sum(s.take(i)) <= kb_sum(s),
    decreases s.len() - i,
{
    if i == s.len() {
        assert(s.take(i) =~= s);
    } else {
        lemma_kb_sum_take_le(s, i + 1);
        assert(s.take(i + 1).drop_last() =~= s.take(i));
        assert(s.take(i + 1).last() == s[i]);
    }
}

/// Per-name sums are bounded by the totals, and vanish where the name
/// does not occur.
pub proof fn lemma_name_sums(s: Seq<ProcessSwapInfo>, name: Seq<char>)
    ensures
        0 <= name_kb_sum(s, name) <= kb_sum(s),
        0 <= name_rec_count(s, name) <= s.len(),
        !has_name(s, name) ==> name_kb_sum(s, name) == 0 && name_rec_count(s, name) == 0,
    decreases s.len(),
{
    if s.len() > 0 {
        lemma_name_sums(s.drop_last(), name);
        lemma_kb_sum_nonneg(s.drop_last());
        if !has_name(s, name) {
            assert(s[s.len() - 1].name@ != name);
            if has_name(s.drop_last(), name) {
                let i = choose|i: int| 0 <= i < s.drop_last().len() && s.drop_last()[i].name@ == name;
                assert(s[i].name@ == name);
            }
        }
    }
}

/// Replacing one record changes the totals by the difference of the two
/// records.
proof fn lemma_sums_update(s: Seq<ProcessSwapInfo>, j: int, v: ProcessSwapInfo)
    requires
        0 <= j < s.len(),
    ensures
        kb_sum(s.update(j, v)) == kb_sum(s) - s[j].swap_kb + v.swap_kb,
        count_sum(s.update(j, v)) == count_sum(s) - member_count(s[j]) + member_count(v),
    decreases s.len(),
{
    if j == s.len() - 1 {
        assert(s.update(j, v).drop_last() =~= s.drop_last());
        assert(s.update(j, v).last() == v);
    } else {
        lemma_sums_update(s.drop_last(), j, v);
        assert(s.update(j, v).drop_last() =~= s.drop_last().update(j, v));
        assert(s.update(j, v).last() == s.last());
    }
}

/// The recursive sums agree with folding over the list.
proof fn lemma_sums_as_folds(s: Seq<ProcessSwapInfo>)
    ensures
        kb_sum(s) == s.fold_left(0int, |acc: int, p: ProcessSwapInfo| acc + p.swap_kb),
        count_sum(s) == s.fold_left(0int, |acc: int, p: ProcessSwapInfo| acc + member_count(p)),
    decreases s.len(),
{
    if s.len() > 0 {
        lemma_sums_as_folds(s.drop_last());
    }
}

/// Law: reordering a record list changes neither its kilobyte total nor
/// its member-count total.
pub proof fn lemma_sums_permutation(s1: Seq<ProcessSwapInfo>, s2: Seq<ProcessSwapInfo>)
    requires
        s1.to_multiset() == s2.to_multiset(),
    ensures
        kb_sum(s1) == kb_sum(s2),
        count_sum(s1) == count_sum(s2),
{
    let f = |acc: int, p: ProcessSwapInfo| acc + p.swap_kb;
    let g = |acc: int, p: ProcessSwapInfo| acc + member_count(p);
    assert(vstd::seq_lib::commutative_foldl(f));
    assert(vstd::seq_lib::commutative_foldl(g));
    vstd::seq_lib::lemma_fold_left_permutation(s1, s2, f, 0int);
    vstd::seq_lib::lemma_fold_left_permutation(s1, s2, g, 0int);
    lemma_sums_as_folds(s1);
    lemma_sums_as_folds(s2);
}

/// Sort records by descending kilobyte value, keeping equal-valued records
/// in their given order.
pub fn sort_desc(v: &mut Vec<ProcessSwapInfo>)
    ensures
        sorted_desc(final(v)@),
        final(v)@.to_multiset() == old(v)@.to_multiset(),
        final(v)@.len() == old(v)@.len(),
{
    broadcast use vstd::seq_lib::group_to_multiset_ensures;
    broadcast use vstd::multiset::group_multiset_axioms;

    let ghost orig = v@;
    let mut i: usize = 0;
    while i < v.len()
        invariant
            i <= v@.len(),
            sorted_desc(v@.take(i as int)),
            v@.to_multiset() == orig.to_multiset(),
            v@.len() == orig.len(),
        decreases v@.len() - i,
    {
        let ghost prev = v@;
        let x = v.remove(i);
        let ghost mid = v@;
        proof {
            vstd::seq_lib::to_multiset_remove(prev, i as int);
            assert(mid.to_multiset() =~= prev.to_multiset().remove(x));
            assert(mid.take(i as int) =~= prev.take(i as int));
        }
        let mut j: usize = 0;
        while j < i && v[j].swap_kb >= x.swap_kb
            invariant
                j <= i,
                i <= v@.len(),
                forall|k: int| 0 <= k < j ==> v@[k].swap_kb >= x.swap_kb,
            decreases i - j,
        {
            j = j + 1;
        }
        v.insert(j, x);
        proof {
            vstd::seq_lib::to_multiset_insert(mid, j as int, x);
            assert(v@.to_multiset() =~= mid.to_multiset().insert(x));
            assert(prev.contains(x));
            vstd::seq_lib::to_multiset_contains(prev, x);
            assert(prev.to_multiset().count(x) > 0);
            assert(v@.to_multiset() =~= prev.to_multiset()) by {
                assert forall|y: ProcessSwapInfo|
                    v@.to_multiset().count(y) == prev.to_multiset().count(y) by {
                }
            }
            assert(sorted_desc(v@.take(i + 1))) by {
                assert forall|a: int, b: int|
                    #![trigger v@.take(i + 1)[a], v@.take(i + 1)[b]]
                    0 <= a <= b < i + 1 implies v@.take(i + 1)[a].swap_kb >= v@.take(
                    i + 1,
                )[b].swap_kb by {
                    if j < i && !(a == b) {
                        assert(mid[j as int].swap_kb < x.swap_kb);
                    }
                }
            }
        }
        i = i + 1;
    }
    proof {
        assert(v@.take(v@.len() as int) =~= v@);
    }
}

/// The index of the record named `name`, where one exists.
fn find_name(groups: &Vec<ProcessSwapInfo>, name: &String) -> (r: Option<usize>)
    ensures
        match r {
            Some(j) => j < groups@.len() && groups@[j as int].name@ == name@,
            None => !has_name(groups@, name@),
        },
{
    let mut j: usize = 0;
    while j < groups.len()
        invariant
            j <= groups@.len(),
            forall|k: int| 0 <= k < j ==> groups@[k].name@ != name@,
        decreases groups@.len() - j,
    {
        if groups[j].name == *name {
            return Some(j);
        }
        j = j + 1;
    }
    None
}

/// What it means for `out` to be the aggregation of `input`: one record
/// per distinct input name, carrying that name's kilobyte sum and record
/// count, ordered by descending value; the kilobyte total and the record
/// count are conserved, and the output names are exactly the input names.
pub open spec fn aggregated_of(out: Seq<ProcessSwapInfo>, input: Seq<ProcessSwapInfo>) -> bool {
    &&& sorted_desc(out)
    &&& distinct_names(out)
    &&& kb_sum(out) == kb_sum(input)
    &&& count_sum(out) == input.len()
    &&& forall|i: int| 0 <= i < out.len() ==> (#[trigger] out[i]).tag is Aggregated
    &&& forall|i: int|
        0 <= i < out.len() ==> (#[trigger] out[i]).swap_kb as int == name_kb_sum(
            input,
            out[i].name@,
        )
    &&& forall|i: int|
        0 <= i < out.len() ==> member_count(#[trigger] out[i]) == name_rec_count(
            input,
            out[i].name@,
        )
    &&& forall|i: int| 0 <= i < out.len() ==> has_name(input, (#[trigger] out[i]).name@)
    &&& forall|w: int| 0 <= w < input.len() ==> has_name(out, (#[trigger] input[w]).name@)
}

/// An aggregation has no more records than its input: every output record
/// stands for at least one input record.
pub proof fn lemma_aggregated_len(out: Seq<ProcessSwapInfo>, input: Seq<ProcessSwapInfo>)
    requires
        aggregated_of(out, input),
    ensures
        out.len() <= input.len(),
{
    lemma_count_sum_ge_len(out, input);
}

proof fn lemma_count_sum_ge_len(out: Seq<ProcessSwapInfo>, input: Seq<ProcessSwapInfo>)
    requires
        forall|i: int| 0 <= i < out.len() ==> member_count(#[trigger] out[i]) == name_rec_count(
            input,
            out[i].name@,
        ),
        forall|i: int| 0 <= i < out.len() ==> has_name(input, (#[trigger] out[i]).name@),
    ensures
        count_sum(out) >= out.len(),
    decreases out.len(),
{
    if out.len() > 0 {
        lemma_count_sum_ge_len(out.drop_last(), input);
        let last = out[out.len() - 1];
        lemma_name_rec_count_present(input, last.name@);
    }
}

/// A name that occurs is counted at least once.
proof fn lemma_name_rec_count_present(s: Seq<ProcessSwapInfo>, name: Seq<char>)
    requires
        has_name(s, name),
    ensures
        name_rec_count(s, name) >= 1,
    decreases s.len(),
{
    lemma_name_sums(s.drop_last(), name);
    if s.len() > 0 {
        if s.last().name@ != name {
            let i = choose|i: int| 0 <= i < s.len() && s[i].name@ == name;
            assert(s.drop_last()[i].name@ == name);
            lemma_name_rec_count_present(s.drop_last(), name);
        }
    }
}

/// Where the names are distinct, a present name is counted exactly once
/// and its sum is the one record's value.
proof fn lemma_name_sums_distinct(s: Seq<ProcessSwapInfo>, name: Seq<char>)
    requires
        distinct_names(s),
        has_name(s, name),
    ensures
        name_rec_count(s, name) == 1,
        exists|w: int|
            0 <= w < s.len() && (#[trigger] s[w]).name@ == name && s[w].swap_kb as int
                == name_kb_sum(s, name),
    decreases s.len(),
{
    if s.last().name@ == name {
        assert(!has_name(s.drop_last(), name)) by {
            if has_name(s.drop_last(), name) {
                let w = choose|w: int|
                    0 <= w < s.drop_last().len() && s.drop_last()[w].name@ == name;
                assert(s[w].name@ == name);
                assert(s[s.len() - 1].name@ == name);
            }
        }
        lemma_name_sums(s.drop_last(), name);
        assert(s[s.len() - 1].name@ == name && s[s.len() - 1].swap_kb as int == name_kb_sum(
            s,
            name,
        ));
    } else {
        let w = choose|w: int| 0 <= w < s.len() && s[w].name@ == name;
        assert(w < s.len() - 1);
        assert(s.drop_last()[w].name@ == name);
        assert(distinct_names(s.drop_last())) by {
            assert forall|a: int, b: int|
                0 <= a < b < s.drop_last().len() implies (#[trigger] s.drop_last()[a]).name@ != (
            #[trigger] s.drop_last()[b]).name@ by {
                assert(s[a].name@ != s[b].name@);
            }
        }
        lemma_name_sums_distinct(s.drop_last(), name);
        let v = choose|v: int|
            0 <= v < s.drop_last().len() && (#[trigger] s.drop_last()[v]).name@ == name
                && s.drop_last()[v].swap_kb as int == name_kb_sum(s.drop_last(), name);
        assert(s[v].name@ == name && s[v].swap_kb as int == name_kb_sum(s, name));
    }
}

/// A list whose records all stand for one member counts as many members
/// as records.
proof fn lemma_count_sum_all_ones(s: Seq<ProcessSwapInfo>)
    requires
        forall|i: int| 0 <= i < s.len() ==> member_count(#[trigger] s[i]) == 1,
    ensures
        count_sum(s) == s.len(),
    decreases s.len(),
{
    if s.len() > 0 {
        lemma_count_sum_all_ones(s.drop_last());
    }
}

/// Law: aggregating a list whose names are already distinct is a no-op on
/// the values — the output has as many records as the input, every member
/// count is one, and each output record carries the kilobytes of the one
/// input record with its name.
pub proof fn lemma_aggregate_singleton_noop(
    out: Seq<ProcessSwapInfo>,
    input: Seq<ProcessSwapInfo>,
)
    requires
        aggregated_of(out, input),
        distinct_names(input),
    ensures
        out.len() == input.len(),
        forall|i: int| 0 <= i < out.len() ==> member_count(#[trigger] out[i]) == 1,
        forall|i: int|
            0 <= i < out.len() ==> exists|w: int|
                0 <= w < input.len() && (#[trigger] input[w]).name@ == (#[trigger] out[i]).name@
                    && input[w].swap_kb == out[i].swap_kb,
{
    assert forall|i: int| 0 <= i < out.len() implies member_count(#[trigger] out[i]) == 1 by {
        lemma_name_sums_distinct(input, out[i].name@);
    }
    assert forall|i: int|
        0 <= i < out.len() implies exists|w: int|
            0 <= w < input.len() && (#[trigger] input[w]).name@ == (#[trigger] out[i]).name@
                && input[w].swap_kb == out[i].swap_kb by {
        lemma_name_sums_distinct(input, out[i].name@);
        let w = choose|w: int|
            0 <= w < input.len() && (#[trigger] input[w]).name@ == out[i].name@
                && input[w].swap_kb as int == name_kb_sum(input, out[i].name@);
        assert(input[w].name@ == out[i].name@ && input[w].swap_kb == out[i].swap_kb);
    }
    lemma_count_sum_all_ones(out);
}

/// Reordering a record list keeps every per-record property stated here:
/// being individual records, and containing a given name.
pub proof fn lemma_perm_preserves_records(s1: Seq<ProcessSwapInfo>, s2: Seq<ProcessSwapInfo>)
    requires
        s1.to_multiset() == s2.to_multiset(),
    ensures
        all_individual(s1) ==> all_individual(s2),
    decreases s1.len(),
{
    broadcast use vstd::seq_lib::group_to_multiset_ensures;

    if all_individual(s1) {
        assert forall|i: int| 0 <= i < s2.len() implies (#[trigger] s2[i].tag) is Individual by {
            assert(s2.contains(s2[i]));
            assert(s2.to_multiset().count(s2[i]) > 0);
            assert(s1.to_multiset().count(s2[i]) > 0);
            assert(s1.contains(s2[i]));
            let k = choose|k: int| 0 <= k < s1.len() && s1[k] == s2[i];
            assert(s1[k].tag is Individual);
        }
    }
}

/// The kilobyte total of a record list, where it fits the machine word.
pub fn checked_total_kb(v: &Vec<ProcessSwapInfo>) -> (r: Option<u64>)
    ensures
        match r {
            Some(t) => t == kb_sum(v@),
            None => kb_sum(v@) > u64::MAX,
        },
{
    let mut acc: u64 = 0;
    let mut idx: usize = 0;
    while idx < v.len()
        invariant
            idx <= v@.len(),
            acc == kb_sum(v@.take(idx as int)),
        decreases v@.len() - idx,
    {
        proof {
            assert(v@.take(idx + 1).drop_last() =~= v@.take(idx as int));
            assert(v@.take(idx + 1).last() == v@[idx as int]);
        }
        let kb = v[idx].swap_kb;
        if kb > u64::MAX - acc {
            proof {
                lemma_kb_sum_take_ge(v@, idx + 1);
            }
            return None;
        }
        acc = acc + kb;
        idx = idx + 1;
    }
    proof {
        assert(v@.take(v@.len() as int) =~= v@);
    }
    Some(acc)
}

/// The whole list sums to at least any prefix.
proof fn lemma_kb_sum_take_ge(s: Seq<ProcessSwapInfo>, i: int)
    requires
        0 <= i <= s.len(),
    ensures
        kb_sum(s) >= kb_sum(s.take(i)),
{
    lemma_kb_sum_take_le(s, i);
}

/// Group an individual record list by process name.
///
/// One output record stands for each distinct name: its value is the sum
/// of the group's kilobytes, its leading column the member count, and the
/// output is ordered by descending value. The kilobyte total and the
/// process count are conserved, and the output names are exactly the
/// input names.
pub fn aggregate_processes(processes: Vec<ProcessSwapInfo>) -> (r: Vec<ProcessSwapInfo>)
    requires
        kb_sum(processes@) <= u64::MAX,
        all_individual(processes@),
    ensures
        aggregated_of(r@, processes@),
{
    broadcast use vstd::seq_lib::group_to_multiset_ensures;

    let ghost pre = processes@;
    let mut groups: Vec<ProcessSwapInfo> = Vec::new();
    let mut idx: usize = 0;
    while idx < processes.len()
        invariant
            idx <= pre.len(),
            processes@ == pre,
            kb_sum(pre) <= u64::MAX,
            all_individual(pre),
            distinct_names(groups@),
            kb_sum(groups@) == kb_sum(pre.take(idx as int)),
            count_sum(groups@) == idx,
            forall|i: int| 0 <= i < groups@.len() ==> (#[trigger] groups@[i]).tag is Aggregated,
            forall|i: int|
                0 <= i < groups@.len() ==> (#[trigger] groups@[i]).swap_kb as int == name_kb_sum(
                    pre.take(idx as int),
                    groups@[i].name@,
                ),
            forall|i: int|
                0 <= i < groups@.len() ==> member_count(#[trigger] groups@[i]) == name_rec_count(
                    pre.take(idx as int),
                    groups@[i].name@,
                ),
            forall|i: int|
                0 <= i < groups@.len() ==> has_name(
                    pre.take(idx as int),
                    (#[trigger] groups@[i]).name@,
                ),
            forall|w: int| 0 <= w < idx ==> has_name(groups@, (#[trigger] pre[w]).name@),
        decreases pre.len() - idx,
    {
        proof {
            assert(pre.take(idx + 1).drop_last() =~= pre.take(idx as int));
            assert(pre.take(idx + 1).last() == pre[idx as int]);
        }
        let found = find_name(&groups, &processes[idx].name);
        match found {
            Some(j) => {
                let ghost gpre = groups@;
                let old_kb = groups[j].swap_kb;
                let old_count: u64 = match groups[j].tag {
                    RowTag::Aggregated { count } => count,
                    RowTag::Individual { .. } => 1,
                };
                proof {
                    lemma_name_sums(pre.take(idx + 1), pre[idx as int].name@);
                    lemma_kb_sum_take_le(pre, idx + 1);
                    lemma_name_sums(pre.take(idx as int), pre[idx as int].name@);
                }
                let updated = ProcessSwapInfo {
                    tag: RowTag::Aggregated { count: old_count + 1 },
                    name: processes[idx].name.clone(),
                    swap_kb: old_kb + processes[idx].swap_kb,
                };
                groups.remove(j);
                groups.insert(j, updated);
                proof {
                    assert(groups@ =~= gpre.update(j as int, updated));
                    lemma_sums_update(gpre, j as int, updated);
                    assert forall|i: int|
                        0 <= i < groups@.len() implies ((#[trigger] groups@[i]).tag is Aggregated)
                        && groups@[i].swap_kb as int == name_kb_sum(
                        pre.take(idx + 1),
                        groups@[i].name@,
                    ) && member_count(groups@[i]) == name_rec_count(
                        pre.take(idx + 1),
                        groups@[i].name@,
                    ) && has_name(pre.take(idx + 1), groups@[i].name@) by {
                        if i != j {
                            assert(groups@[i] == gpre[i]);
                            assert(gpre[i].name@ != gpre[j as int].name@);
                            let w = choose|w: int|
                                0 <= w < pre.take(idx as int).len() && pre.take(
                                    idx as int,
                                )[w].name@ == gpre[i].name@;
                            assert(pre.take(idx + 1)[w].name@ == gpre[i].name@);
                        } else {
                            assert(pre.take(idx + 1)[idx as int].name@ == groups@[i].name@);
                        }
                    }
                    assert(distinct_names(groups@)) by {
                        assert forall|a: int, b: int|
                            0 <= a < b < groups@.len() implies (#[trigger] groups@[a]).name@ != (
                        #[trigger] groups@[b]).name@ by {
                            assert(groups@[a].name@ == gpre[a].name@);
                            assert(groups@[b].name@ == gpre[b].name@);
                        }
                    }
                    assert forall|w: int|
                        0 <= w < idx + 1 implies has_name(groups@, (#[trigger] pre[w]).name@) by {
                        if w < idx {
                            assert(has_name(gpre, pre[w].name@));
                            let g = choose|g: int|
                                0 <= g < gpre.len() && gpre[g].name@ == pre[w].name@;
                            if g != j {
                                assert(groups@[g].name@ == pre[w].name@);
                            } else {
                                assert(groups@[j as int].name@ == gpre[j as int].name@);
                            }
                        } else {
                            assert(groups@[j as int].name@ == pre[w].name@);
                        }
                    }
                }
            },
            None => {
                let ghost gpre = groups@;
                let fresh = ProcessSwapInfo {
                    tag: RowTag::Aggregated { count: 1 },
                    name: processes[idx].name.clone(),
                    swap_kb: processes[idx].swap_kb,
                };
                groups.push(fresh);
                proof {
                    assert(groups@.drop_last() =~= gpre);
                    assert(groups@.last() == fresh);
                    assert(!has_name(pre.take(idx as int), pre[idx as int].name@)) by {
                        if has_name(pre.take(idx as int), pre[idx as int].name@) {
                            let w = choose|w: int|
                                0 <= w < pre.take(idx as int).len() && pre.take(
                                    idx as int,
                                )[w].name@ == pre[idx as int].name@;
                            assert(has_name(gpre, pre[w].name@));
                        }
                    }
                    lemma_name_sums(pre.take(idx as int), pre[idx as int].name@);
                    assert forall|i: int|
                        0 <= i < groups@.len() implies ((#[trigger] groups@[i]).tag is Aggregated)
                        && groups@[i].swap_kb as int == name_kb_sum(
                        pre.take(idx + 1),
                        groups@[i].name@,
                    ) && member_count(groups@[i]) == name_rec_count(
                        pre.take(idx + 1),
                        groups@[i].name@,
                    ) && has_name(pre.take(idx + 1), groups@[i].name@) by {
                        if i < gpre.len() {
                            assert(groups@[i] == gpre[i]);
                            assert(has_name(pre.take(idx as int), gpre[i].name@));
                            let w = choose|w: int|
                                0 <= w < pre.take(idx as int).len() && pre.take(
                                    idx as int,
                                )[w].name@ == gpre[i].name@;
                            assert(pre.take(idx + 1)[w].name@ == gpre[i].name@);
                            assert(gpre[i].name@ != pre[idx as int].name@);
                        } else {
                            assert(groups@[i] == fresh);
                            assert(pre.take(idx + 1)[idx as int].name@ == fresh.name@);
                        }
                    }
                    assert(distinct_names(groups@)) by {
                        assert forall|a: int, b: int|
                            0 <= a < b < groups@.len() implies (#[trigger] groups@[a]).name@ != (
                        #[trigger] groups@[b]).name@ by {
                            if b == groups@.len() - 1 {
                                assert(groups@[a] == gpre[a]);
                                if gpre[a].name@ == fresh.name@ {
                                    assert(has_name(gpre, pre[idx as int].name@));
                                }
                            } else {
                                assert(groups@[a] == gpre[a]);
                                assert(groups@[b] == gpre[b]);
                            }
                        }
                    }
                    assert forall|w: int|
                        0 <= w < idx + 1 implies has_name(groups@, (#[trigger] pre[w]).name@) by {
                        if w < idx {
                            assert(has_name(gpre, pre[w].name@));
                            let g = choose|g: int|
                                0 <= g < gpre.len() && gpre[g].name@ == pre[w].name@;
                            assert(groups@[g] == gpre[g]);
                            assert(groups@[g].name@ == pre[w].name@);
                        } else {
                            assert(groups@[groups@.len() - 1].name@ == pre[w].name@);
                        }
                    }
                }
            },
        }
        idx = idx + 1;
    }
    proof {
        assert(pre.take(pre.len() as int) =~= pre);
    }
    let ghost grouped = groups@;
    sort_desc(&mut groups);
    proof {
        broadcast use vstd::multiset::group_multiset_axioms;

        lemma_sums_permutation(grouped, groups@);
        assert(grouped.no_duplicates()) by {
            assert forall|a: int, b: int|
                0 <= a < b < grouped.len() implies grouped[a] != grouped[b] by {
                assert(grouped[a].name@ != grouped[b].name@);
            }
        }
        grouped.lemma_multiset_has_no_duplicates();
        groups@.lemma_multiset_has_no_duplicates_conv();
        assert forall|i: int|
            0 <= i < groups@.len() implies ((#[trigger] groups@[i]).tag is Aggregated)
            && groups@[i].swap_kb as int == name_kb_sum(pre, groups@[i].name@) && member_count(
            groups@[i],
        ) == name_rec_count(pre, groups@[i].name@) && has_name(pre, groups@[i].name@) by {
            assert(groups@.contains(groups@[i]));
            assert(groups@.to_multiset().count(groups@[i]) > 0);
            assert(grouped.to_multiset().count(groups@[i]) > 0);
            assert(grouped.contains(groups@[i]));
            let k = choose|k: int| 0 <= k < grouped.len() && grouped[k] == groups@[i];
            assert(grouped[k].tag is Aggregated);
        }
        assert(distinct_names(groups@)) by {
            assert forall|a: int, b: int|
                0 <= a < b < groups@.len() implies (#[trigger] groups@[a]).name@ != (
            #[trigger] groups@[b]).name@ by {
                assert(groups@[a] != groups@[b]);
                assert(groups@.contains(groups@[a]));
                assert(groups@.to_multiset().count(groups@[a]) > 0);
                assert(grouped.to_multiset().count(groups@[a]) > 0);
                assert(grouped.contains(groups@[a]));
                assert(groups@.contains(groups@[b]));
                assert(groups@.to_multiset().count(groups@[b]) > 0);
                assert(grouped.to_multiset().count(groups@[b]) > 0);
                assert(grouped.contains(groups@[b]));
                let ka = choose|k: int| 0 <= k < grouped.len() && grouped[k] == groups@[a];
                let kb = choose|k: int| 0 <= k < grouped.len() && grouped[k] == groups@[b];
                assert(ka != kb);
                assert(grouped[ka].name@ != grouped[kb].name@);
            }
        }
        assert forall|w: int|
            0 <= w < pre.len() implies has_name(groups@, (#[trigger] pre[w]).name@) by {
            assert(has_name(grouped, pre[w].name@));
            let g = choose|g: int| 0 <= g < grouped.len() && grouped[g].name@ == pre[w].name@;
            assert(grouped.contains(grouped[g]));
            assert(grouped.to_multiset().count(grouped[g]) > 0);
            assert(groups@.to_multiset().count(grouped[g]) > 0);
            assert(groups@.contains(grouped[g]));
            let k = choose|k: int| 0 <= k < groups@.len() && groups@[k] == grouped[g];
            assert(groups@[k].name@ == pre[w].name@);
        }
    }
    groups
}

/// Copy a record list, element for element.
pub fn clone_records(v: &Vec<ProcessSwapInfo>) -> (r: Vec<ProcessSwapInfo>)
    ensures
        r@ == v@,
{
    let mut r: Vec<ProcessSwapInfo> = Vec::new();
    let mut idx: usize = 0;
    while idx < v.len()
        invariant
            idx <= v@.len(),
            r@ == v@.take(idx as int),
        decreases v@.len() - idx,
    {
        let p = &v[idx];
        r.push(ProcessSwapInfo { tag: p.tag, name: p.name.clone(), swap_kb: p.swap_kb });
        proof {
            assert(r@ =~= v@.take(idx + 1));
        }
        idx = idx + 1;
    }
    proof {
        assert(r@ =~= v@);
    }
    r
}

} // verus!
