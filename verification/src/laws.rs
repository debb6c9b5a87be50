use vstd::prelude::*;

use crate::languages::{
    common_idents, contains_ident, merge_extra, merge_idents, retain_matching,
};
use crate::same::{same_eq, SameV};

verus! {

/// How often an identity equal (by full three-field equality) to `x` occurs
/// in `s`.
pub open spec fn count_ident(s: Seq<SameV>, x: SameV) -> nat
    decreases s.len(),
{
    if s.len() == 0 {
        0
    } else {
        count_ident(s.drop_last(), x) + if same_eq(s.last(), x) {
            1nat
        } else {
            0nat
        }
    }
}

proof fn lemma_contains_ident_unsnoc(s: Seq<SameV>, x: SameV)
    requires
        s.len() > 0,
    ensures
        contains_ident(s, x) <==> (contains_ident(s.drop_last(), x) || same_eq(s.last(), x)),
{
    if contains_ident(s, x) {
        let j = choose|j: int| 0 <= j < s.len() && same_eq(s[j], x);
        if j < s.len() - 1 {
            assert(s.drop_last()[j] == s[j]);
            assert(contains_ident(s.drop_last(), x));
        }
    }
    if contains_ident(s.drop_last(), x) {
        let j = choose|j: int| 0 <= j < s.drop_last().len() && same_eq(s.drop_last()[j], x);
        assert(s[j] == s.drop_last()[j]);
        assert(contains_ident(s, x));
    }
}

proof fn lemma_contains_ident_retain(acc: Seq<SameV>, file: Seq<SameV>, x: SameV)
    ensures
        contains_ident(retain_matching(acc, file), x) <==> (contains_ident(acc, x)
            && contains_ident(file, x)),
    decreases acc.len(),
{
    if acc.len() == 0 {
    } else {
        let dl = acc.drop_last();
        let last = acc.last();
        let rest = retain_matching(dl, file);
        lemma_contains_ident_retain(dl, file, x);
        lemma_contains_ident_unsnoc(acc, x);
        if contains_ident(file, last) {
            assert(rest.push(last).drop_last() =~= rest);
            lemma_contains_ident_unsnoc(rest.push(last), x);
            if same_eq(last, x) {
                let j = choose|j: int| 0 <= j < file.len() && same_eq(file[j], last);
                assert(same_eq(file[j], x));
                assert(contains_ident(file, x));
            }
        } else {
            if same_eq(last, x) && contains_ident(file, x) {
                let j = choose|j: int| 0 <= j < file.len() && same_eq(file[j], x);
                assert(same_eq(file[j], last));
                assert(contains_ident(file, last));
                assert(false);
            }
        }
    }
}

/// The common set of an empty batch is empty.
pub proof fn lemma_common_idents_empty_batch(files: Seq<Seq<SameV>>)
    requires
        files.len() == 0,
    ensures
        common_idents(files) == Seq::<SameV>::empty(),
{
}

proof fn lemma_retain_matching_empty_file(acc: Seq<SameV>, file: Seq<SameV>)
    requires
        file.len() == 0,
    ensures
        retain_matching(acc, file).len() == 0,
    decreases acc.len(),
{
    if acc.len() > 0 {
        lemma_retain_matching_empty_file(acc.drop_last(), file);
        assert(!contains_ident(file, acc.last()));
    }
}

/// If any single file of the batch contributes an empty identity list, the
/// common set of the whole batch is empty.
pub proof fn lemma_common_idents_empty_file(files: Seq<Seq<SameV>>, i: int)
    requires
        0 <= i < files.len(),
        files[i].len() == 0,
    ensures
        common_idents(files).len() == 0,
    decreases files.len(),
{
    if files.len() == 1 {
    } else {
        let prev = common_idents(files.drop_last());
        if i < files.len() - 1 {
            assert(files.drop_last()[i] == files[i]);
            lemma_common_idents_empty_file(files.drop_last(), i);
            assert(prev.len() == 0);
            assert(retain_matching(prev, files.last()).len() == 0);
        } else {
            lemma_retain_matching_empty_file(prev, files.last());
        }
    }
}

/// An identity is in the common set of a batch iff it is in every file's
/// identity list, always by full three-field equality: the common set holds
/// exactly the identities present everywhere.
pub proof fn lemma_common_idents_membership(files: Seq<Seq<SameV>>, x: SameV)
    requires
        files.len() > 0,
    ensures
        contains_ident(common_idents(files), x) <==> (forall|i: int|
            0 <= i < files.len() ==> contains_ident(#[trigger] files[i], x)),
    decreases files.len(),
{
    if files.len() == 1 {
        assert(common_idents(files) == files[0]);
        if contains_ident(files[0], x) {
            assert(forall|i: int| 0 <= i < 1 ==> contains_ident(#[trigger] files[i], x));
        }
    } else {
        let prev_files = files.drop_last();
        lemma_common_idents_membership(prev_files, x);
        lemma_contains_ident_retain(common_idents(prev_files), files.last(), x);
        assert(forall|i: int| 0 <= i < prev_files.len() ==> prev_files[i] == files[i]);
        if contains_ident(common_idents(files), x) {
            assert(forall|i: int|
                0 <= i < files.len() ==> contains_ident(#[trigger] files[i], x)) by {
                assert(forall|i: int|
                    0 <= i < prev_files.len() ==> contains_ident(#[trigger] prev_files[i], x));
                assert(contains_ident(files[files.len() - 1], x));
            }
        }
        if forall|i: int| 0 <= i < files.len() ==> contains_ident(#[trigger] files[i], x) {
            assert(forall|i: int|
                0 <= i < prev_files.len() ==> contains_ident(#[trigger] prev_files[i], x));
            assert(contains_ident(files.last(), x));
        }
    }
}

/// Cross-file intersection is order-insensitive in its survivor set: if two
/// batches hold the same identity lists up to reordering, an identity is in
/// the one common set iff it is in the other. Survivor positions may differ;
/// membership may not.
pub proof fn lemma_common_idents_permutation(
    files1: Seq<Seq<SameV>>,
    files2: Seq<Seq<SameV>>,
    x: SameV,
)
    requires
        files1.len() > 0,
        files1.to_multiset() == files2.to_multiset(),
    ensures
        contains_ident(common_idents(files1), x) <==> contains_ident(common_idents(files2), x),
{
    broadcast use vstd::seq_lib::group_to_multiset_ensures;

    assert(files1.to_multiset().len() == files1.len());
    assert(files2.to_multiset().len() == files2.len());
    lemma_common_idents_membership(files1, x);
    lemma_common_idents_membership(files2, x);
    if forall|i: int| 0 <= i < files1.len() ==> contains_ident(#[trigger] files1[i], x) {
        assert forall|i: int| 0 <= i < files2.len() implies contains_ident(
            #[trigger] files2[i],
            x,
        ) by {
            let e = files2[i];
            assert(files2.contains(e));
            assert(files2.to_multiset().count(e) > 0);
            assert(files1.to_multiset().count(e) > 0);
            assert(files1.contains(e));
            let j = choose|j: int| 0 <= j < files1.len() && files1[j] == files2[i];
            assert(contains_ident(files1[j], x));
        }
    }
    if forall|i: int| 0 <= i < files2.len() ==> contains_ident(#[trigger] files2[i], x) {
        assert forall|i: int| 0 <= i < files1.len() implies contains_ident(
            #[trigger] files1[i],
            x,
        ) by {
            let e = files1[i];
            assert(files1.contains(e));
            assert(files1.to_multiset().count(e) > 0);
            assert(files2.to_multiset().count(e) > 0);
            assert(files2.contains(e));
            let j = choose|j: int| 0 <= j < files2.len() && files2[j] == files1[i];
            assert(contains_ident(files2[j], x));
        }
    }
}

/// Intersecting once more with a file already in the batch changes nothing
/// in the survivor set.
pub proof fn lemma_common_idents_duplicate_file(
    files: Seq<Seq<SameV>>,
    f: Seq<SameV>,
    x: SameV,
)
    requires
        files.len() > 0,
        files.contains(f),
    ensures
        contains_ident(common_idents(files.push(f)), x) <==> contains_ident(
            common_idents(files),
            x,
        ),
{
    lemma_common_idents_membership(files, x);
    lemma_common_idents_membership(files.push(f), x);
    let ext = files.push(f);
    assert(forall|i: int| 0 <= i < files.len() ==> ext[i] == files[i]);
    if forall|i: int| 0 <= i < files.len() ==> contains_ident(#[trigger] files[i], x) {
        assert forall|i: int| 0 <= i < ext.len() implies contains_ident(
            #[trigger] ext[i],
            x,
        ) by {
            if i == files.len() {
                let j = choose|j: int| 0 <= j < files.len() && files[j] == f;
                assert(contains_ident(files[j], x));
                assert(ext[i] == f);
            }
        }
    }
}

proof fn lemma_merge_extra_all_contained(a: Seq<SameV>, b: Seq<SameV>)
    requires
        forall|j: int| 0 <= j < b.len() ==> contains_ident(a, #[trigger] b[j]),
    ensures
        merge_extra(a, b) == Seq::<SameV>::empty(),
    decreases b.len(),
{
    if b.len() > 0 {
        assert(forall|j: int|
            0 <= j < b.drop_last().len() ==> b.drop_last()[j] == b[j]);
        lemma_merge_extra_all_contained(a, b.drop_last());
        assert(contains_ident(a, b.last()));
    }
}

/// Merge is idempotent: merging a set with itself yields that same set, with
/// no duplicates introduced.
pub proof fn lemma_merge_idents_idempotent(s: Seq<SameV>)
    ensures
        merge_idents(s, s) == s,
{
    assert forall|j: int| 0 <= j < s.len() implies contains_ident(s, #[trigger] s[j]) by {
        assert(same_eq(s[j], s[j]));
    }
    lemma_merge_extra_all_contained(s, s);
    assert(merge_idents(s, s) =~= s);
}

proof fn lemma_count_ident_concat(s1: Seq<SameV>, s2: Seq<SameV>, x: SameV)
    ensures
        count_ident(s1 + s2, x) == count_ident(s1, x) + count_ident(s2, x),
    decreases s2.len(),
{
    if s2.len() == 0 {
        assert(s1 + s2 =~= s1);
    } else {
        lemma_count_ident_concat(s1, s2.drop_last(), x);
        assert((s1 + s2).drop_last() =~= s1 + s2.drop_last());
        assert((s1 + s2).last() == s2.last());
    }
}

proof fn lemma_count_ident_merge_extra(a: Seq<SameV>, b: Seq<SameV>, x: SameV)
    requires
        contains_ident(a, x),
    ensures
        count_ident(merge_extra(a, b), x) == 0,
    decreases b.len(),
{
    if b.len() > 0 {
        lemma_count_ident_merge_extra(a, b.drop_last(), x);
        let rest = merge_extra(a, b.drop_last());
        if !contains_ident(a, b.last()) {
            assert(rest.push(b.last()).drop_last() =~= rest);
            if same_eq(b.last(), x) {
                let j = choose|j: int| 0 <= j < a.len() && same_eq(a[j], x);
                assert(same_eq(a[j], b.last()));
                assert(contains_ident(a, b.last()));
                assert(false);
            }
        }
    }
}

/// Merge is left-biased: an identity already present in the short-code set
/// occurs in the merged list exactly as often as there, and the whole
/// short-code set keeps its positions as the prefix of the merge. In
/// particular, when the short-code set holds the identity once, the merge
/// holds it exactly once, at its short-code position.
pub proof fn lemma_merge_idents_left_biased(a: Seq<SameV>, b: Seq<SameV>, x: SameV)
    requires
        contains_ident(a, x),
    ensures
        count_ident(merge_idents(a, b), x) == count_ident(a, x),
        merge_idents(a, b).len() >= a.len(),
        forall|i: int| 0 <= i < a.len() ==> merge_idents(a, b)[i] == a[i],
{
    lemma_count_ident_concat(a, merge_extra(a, b), x);
    lemma_count_ident_merge_extra(a, b, x);
}

} // verus!
