//! Stable ordering of a file listing by one field, in either direction.
use vstd::prelude::*;
use vstd::utf8::encode_utf8;

use crate::browse::app::{SortDirection, SortField};
use crate::put::files::File;
use crate::text::{compare_bytes, lex_order, lowercase, to_lowercase, lemma_lex_order_antisymmetric, lemma_lex_order_reflexive, lemma_lex_order_transitive};

verus! {

/// The bytes by which names are compared: the UTF-8 encoding of the
/// lower-cased name.
pub open spec fn name_key(f: File) -> Seq<u8> {
    encode_utf8(lowercase(f.name@))
}

/// How two files compare on one field: -1, 0 or 1. Names compare without
/// regard to case, sizes as numbers, and the two timestamps as the strings
/// that the service sends, all byte-wise.
pub open spec fn field_order(a: File, b: File, field: SortField) -> int {
    match field {
        SortField::Name => lex_order(name_key(a), name_key(b)),
        SortField::Size => if a.size.0 < b.size.0 { -1 } else if a.size.0 > b.size.0 { 1 } else { 0 },
        SortField::Date => lex_order(encode_utf8(a.created_at@), encode_utf8(b.created_at@)),
        SortField::Modified => lex_order(encode_utf8(a.updated_at@), encode_utf8(b.updated_at@)),
    }
}

/// How two files compare in the listing's order: the field's order,
/// reversed when descending.
pub open spec fn file_order(a: File, b: File, field: SortField, dir: SortDirection) -> int {
    match dir {
        SortDirection::Asc => field_order(a, b, field),
        SortDirection::Desc => -field_order(a, b, field),
    }
}

/// `perm` shows `output` to be `input` stably sorted: `output[k]` is
/// `input[perm[k]]`, each input position is used once, the output is in
/// order, and files that compare equal keep their input order.
pub open spec fn stable_sort_witness(input: Seq<File>, output: Seq<File>, perm: Seq<int>, field: SortField, dir: SortDirection) -> bool {
    &&& perm.len() == input.len()
    &&& output.len() == input.len()
    &&& forall|k: int| 0 <= k < output.len() ==> 0 <= #[trigger] perm[k] < input.len() && output[k] == input[perm[k]]
    &&& forall|k: int, l: int| 0 <= k < l < output.len() ==> #[trigger] perm[k] != #[trigger] perm[l]
    &&& forall|i: int| 0 <= i < input.len() ==> #[trigger] taken(perm, i)
    &&& forall|k: int, l: int| 0 <= k < l < output.len() ==> file_order(#[trigger] output[k], #[trigger] output[l], field, dir) <= 0
    &&& forall|k: int, l: int| 0 <= k < l < output.len() && file_order(#[trigger] output[k], #[trigger] output[l], field, dir) == 0 ==> perm[k] < perm[l]
}

/// Some position of `perm` holds `i`.
pub open spec fn taken(perm: Seq<int>, i: int) -> bool {
    exists|k: int| 0 <= k < perm.len() && #[trigger] perm[k] == i
}

/// `output` is `input` stably sorted by `field` in direction `dir`.
pub open spec fn sorted_stably(input: Seq<File>, output: Seq<File>, field: SortField, dir: SortDirection) -> bool {
    exists|perm: Seq<int>| stable_sort_witness(input, output, perm, field, dir)
}

/// A stable sort keeps the number of files.
pub proof fn lemma_sorted_same_length(input: Seq<File>, output: Seq<File>, field: SortField, dir: SortDirection)
    requires
        sorted_stably(input, output, field, dir),
    ensures
        output.len() == input.len(),
{
    let perm = choose|perm: Seq<int>| stable_sort_witness(input, output, perm, field, dir);
}

/// `file_order` is a total preorder: antisymmetric, reflexive and transitive.
pub proof fn lemma_file_order_laws(a: File, b: File, c: File, field: SortField, dir: SortDirection)
    ensures
        file_order(a, b, field, dir) == -file_order(b, a, field, dir),
        -1 <= file_order(a, b, field, dir) <= 1,
        file_order(a, a, field, dir) == 0,
        file_order(a, b, field, dir) <= 0 && file_order(b, c, field, dir) <= 0 ==> file_order(a, c, field, dir) <= 0,
        file_order(a, b, field, dir) <= 0 && file_order(b, c, field, dir) < 0 ==> file_order(a, c, field, dir) < 0,
        file_order(a, b, field, dir) < 0 && file_order(b, c, field, dir) <= 0 ==> file_order(a, c, field, dir) < 0,
{
    let (ka, kb, kc) = match field {
        SortField::Name => (name_key(a), name_key(b), name_key(c)),
        SortField::Date => (encode_utf8(a.created_at@), encode_utf8(b.created_at@), encode_utf8(c.created_at@)),
        _ => (encode_utf8(a.updated_at@), encode_utf8(b.updated_at@), encode_utf8(c.updated_at@)),
    };
    lemma_lex_order_antisymmetric(ka, kb);
    lemma_lex_order_antisymmetric(kb, kc);
    lemma_lex_order_antisymmetric(ka, kc);
    lemma_lex_order_reflexive(ka);
    match dir {
        SortDirection::Asc => {
            if lex_order(ka, kb) <= 0 && lex_order(kb, kc) <= 0 {
                lemma_lex_order_transitive(ka, kb, kc);
            }
        },
        SortDirection::Desc => {
            if lex_order(kc, kb) <= 0 && lex_order(kb, ka) <= 0 {
                lemma_lex_order_transitive(kc, kb, ka);
            }
        },
    }
}

/// A file with the text by which it is ordered, computed once.
struct Entry {
    file: File,
    key: String,
}

spec fn entry_ok(e: Entry, field: SortField) -> bool {
    field == SortField::Name ==> e.key@ == lowercase(e.file.name@)
}

spec fn entry_files(es: Seq<Entry>) -> Seq<File> {
    es.map_values(|e: Entry| e.file)
}

fn make_entry(file: File, field: SortField) -> (e: Entry)
    ensures
        e.file == file,
        entry_ok(e, field),
{
    let key = match field {
        SortField::Name => to_lowercase(file.name.as_str()),
        _ => String::new(),
    };
    Entry { file, key }
}

fn entry_order(a: &Entry, b: &Entry, field: SortField, dir: SortDirection) -> (r: i8)
    requires
        entry_ok(*a, field),
        entry_ok(*b, field),
    ensures
        r as int == file_order(a.file, b.file, field, dir),
{
    let o: i8 = match field {
        SortField::Name => compare_bytes(a.key.as_str().as_bytes(), b.key.as_str().as_bytes()),
        SortField::Size => {
            if a.file.size.0 < b.file.size.0 {
                -1
            } else if a.file.size.0 > b.file.size.0 {
                1
            } else {
                0
            }
        },
        SortField::Date => compare_bytes(a.file.created_at.as_str().as_bytes(), b.file.created_at.as_str().as_bytes()),
        SortField::Modified => compare_bytes(a.file.updated_at.as_str().as_bytes(), b.file.updated_at.as_str().as_bytes()),
    };
    proof {
        lemma_file_order_laws(a.file, b.file, b.file, field, dir);
    }
    match dir {
        SortDirection::Asc => o,
        SortDirection::Desc => -o,
    }
}

/// Position of the first entry that does not come before `x`.
fn lower_bound(es: &Vec<Entry>, x: &Entry, field: SortField, dir: SortDirection) -> (p: usize)
    requires
        entry_ok(*x, field),
        forall|k: int| 0 <= k < es@.len() ==> entry_ok(#[trigger] es@[k], field),
        forall|k: int, l: int| 0 <= k < l < es@.len() ==> file_order(#[trigger] es@[k].file, #[trigger] es@[l].file, field, dir) <= 0,
    ensures
        p <= es@.len(),
        forall|k: int| 0 <= k < p ==> file_order(#[trigger] es@[k].file, x.file, field, dir) < 0,
        forall|k: int| p <= k < es@.len() ==> file_order(#[trigger] es@[k].file, x.file, field, dir) >= 0,
{
    let mut lo: usize = 0;
    let mut hi: usize = es.len();
    while lo < hi
        invariant
            lo <= hi <= es@.len(),
            entry_ok(*x, field),
            forall|k: int| 0 <= k < es@.len() ==> entry_ok(#[trigger] es@[k], field),
            forall|k: int, l: int| 0 <= k < l < es@.len() ==> file_order(#[trigger] es@[k].file, #[trigger] es@[l].file, field, dir) <= 0,
            forall|k: int| 0 <= k < lo ==> file_order(#[trigger] es@[k].file, x.file, field, dir) < 0,
            forall|k: int| hi <= k < es@.len() ==> file_order(#[trigger] es@[k].file, x.file, field, dir) >= 0,
        decreases hi - lo,
    {
        let mid = lo + (hi - lo) / 2;
        let o = entry_order(&es[mid], x, field, dir);
        if o < 0 {
            proof {
                assert forall|k: int| 0 <= k < mid + 1 implies file_order(#[trigger] es@[k].file, x.file, field, dir) < 0 by {
                    if k < mid {
                        lemma_file_order_laws(es@[k].file, es@[mid as int].file, x.file, field, dir);
                    }
                }
            }
            lo = mid + 1;
        } else {
            proof {
                assert forall|k: int| mid <= k < es@.len() implies file_order(#[trigger] es@[k].file, x.file, field, dir) >= 0 by {
                    lemma_file_order_laws(x.file, es@[mid as int].file, es@[k].file, field, dir);
                    lemma_file_order_laws(es@[k].file, x.file, x.file, field, dir);
                    lemma_file_order_laws(es@[mid as int].file, x.file, x.file, field, dir);
                    if k > mid {
                        lemma_file_order_laws(es@[mid as int].file, es@[k].file, es@[k].file, field, dir);
                    }
                }
            }
            hi = mid;
        }
    }
    lo
}

/// Sorts `files` stably by `field` in direction `dir`.
pub fn stable_sort(files: Vec<File>, field: SortField, dir: SortDirection) -> (res: Vec<File>)
    ensures
        sorted_stably(files@, res@, field, dir),
{
    let ghost input = files@;
    let ghost n = files@.len();
    let mut rest = files;
    let mut out: Vec<Entry> = Vec::new();
    let ghost mut perm: Seq<int> = seq![];
    while rest.len() > 0
        invariant
            rest@ == input.take(rest@.len() as int),
            rest@.len() <= n,
            n == input.len(),
            out@.len() + rest@.len() == n,
            perm.len() == out@.len(),
            forall|k: int| 0 <= k < out@.len() ==> entry_ok(#[trigger] out@[k], field),
            forall|k: int| 0 <= k < out@.len() ==> rest@.len() <= #[trigger] perm[k] < n && out@[k].file == input[perm[k]],
            forall|k: int, l: int| 0 <= k < l < out@.len() ==> #[trigger] perm[k] != #[trigger] perm[l],
            forall|i: int| rest@.len() <= i < n ==> #[trigger] taken(perm, i),
            forall|k: int, l: int| 0 <= k < l < out@.len() ==> file_order(#[trigger] out@[k].file, #[trigger] out@[l].file, field, dir) <= 0,
            forall|k: int, l: int| 0 <= k < l < out@.len() && file_order(#[trigger] out@[k].file, #[trigger] out@[l].file, field, dir) == 0 ==> perm[k] < perm[l],
        decreases rest@.len(),
    {
        let ghost m = rest@.len() as int;
        let f = rest.pop().unwrap();
        proof {
            assert(input.take(m)[m - 1] == input[m - 1]);
            assert(rest@ =~= input.take(m - 1));
        }
        let e = make_entry(f, field);
        let p = lower_bound(&out, &e, field, dir);
        let ghost old_out = out@;
        let ghost old_perm = perm;
        out.insert(p, e);
        proof {
            perm = old_perm.insert(p as int, m - 1);
            let x = input[m - 1];
            assert(out@ == old_out.insert(p as int, out@[p as int]));
            assert forall|k: int| 0 <= k < out@.len() implies entry_ok(#[trigger] out@[k], field) by {
                if k < p {
                    assert(out@[k] == old_out[k]);
                } else if k > p {
                    assert(out@[k] == old_out[k - 1]);
                }
            }
            assert forall|k: int| 0 <= k < out@.len() implies m - 1 <= #[trigger] perm[k] < n && out@[k].file == input[perm[k]] by {
                if k < p {
                    assert(out@[k] == old_out[k]);
                    assert(perm[k] == old_perm[k]);
                } else if k > p {
                    assert(out@[k] == old_out[k - 1]);
                    assert(perm[k] == old_perm[k - 1]);
                }
            }
            assert forall|i: int| m - 1 <= i < n implies #[trigger] taken(perm, i) by {
                if i == m - 1 {
                    assert(perm[p as int] == i);
                } else {
                    assert(taken(old_perm, i));
                    let k0 = choose|k0: int| 0 <= k0 < old_perm.len() && #[trigger] old_perm[k0] == i;
                    if k0 < p {
                        assert(perm[k0] == i);
                    } else {
                        assert(perm[k0 + 1] == i);
                    }
                }
            }
            assert forall|k: int, l: int| 0 <= k < l < out@.len() implies #[trigger] perm[k] != #[trigger] perm[l] by {
                if k != p && l != p {
                    let k0 = if k < p { k } else { k - 1 };
                    let l0 = if l < p { l } else { l - 1 };
                    assert(perm[k] == old_perm[k0]);
                    assert(perm[l] == old_perm[l0]);
                } else if k == p {
                    assert(perm[l] == old_perm[l - 1]);
                } else {
                    assert(perm[k] == old_perm[k]);
                }
            }
            assert forall|k: int, l: int| 0 <= k < l < out@.len() implies
                file_order(#[trigger] out@[k].file, #[trigger] out@[l].file, field, dir) <= 0
                && (file_order(out@[k].file, out@[l].file, field, dir) == 0 ==> perm[k] < perm[l]) by {
                if k != p && l != p {
                    let k0 = if k < p { k } else { k - 1 };
                    let l0 = if l < p { l } else { l - 1 };
                    assert(out@[k] == old_out[k0]);
                    assert(out@[l] == old_out[l0]);
                    assert(perm[k] == old_perm[k0]);
                    assert(perm[l] == old_perm[l0]);
                } else if k == p {
                    assert(out@[l] == old_out[l - 1]);
                    assert(perm[l] == old_perm[l - 1]);
                    lemma_file_order_laws(old_out[l - 1].file, x, x, field, dir);
                } else {
                    assert(out@[k] == old_out[k]);
                    assert(perm[k] == old_perm[k]);
                }
            }
        }
    }
    // Lay the files out in order: popping twice restores the order.
    let ghost sorted = entry_files(out@);
    proof {
        assert(rest@.len() == 0);
        assert forall|k: int| 0 <= k < out@.len() implies #[trigger] sorted[k] == out@[k].file by {}
        assert(stable_sort_witness(input, sorted, perm, field, dir));
    }
    let mut reversed: Vec<File> = Vec::new();
    while out.len() > 0
        invariant
            out@.len() + reversed@.len() == sorted.len(),
            forall|k: int| 0 <= k < out@.len() ==> #[trigger] out@[k].file == sorted[k],
            forall|k: int| 0 <= k < reversed@.len() ==> #[trigger] reversed@[k] == sorted[sorted.len() - 1 - k],
        decreases out@.len(),
    {
        let e = out.pop().unwrap();
        reversed.push(e.file);
    }
    let mut res: Vec<File> = Vec::new();
    while reversed.len() > 0
        invariant
            res@.len() + reversed@.len() == sorted.len(),
            forall|k: int| 0 <= k < reversed@.len() ==> #[trigger] reversed@[k] == sorted[sorted.len() - 1 - k],
            forall|k: int| 0 <= k < res@.len() ==> #[trigger] res@[k] == sorted[k],
        decreases reversed@.len(),
    {
        let f = reversed.pop().unwrap();
        res.push(f);
    }
    proof {
        assert(res@ =~= sorted);
    }
    res
}

/// Ordering a listing neither loses nor invents files: every file of the
/// input is in the output and every file of the output is in the input.
pub proof fn law_sorting_keeps_the_files(input: Seq<File>, output: Seq<File>, field: SortField, dir: SortDirection)
    requires
        sorted_stably(input, output, field, dir),
    ensures
        output.len() == input.len(),
        forall|i: int| 0 <= i < input.len() ==> #[trigger] output.contains(input[i]),
        forall|k: int| 0 <= k < output.len() ==> #[trigger] input.contains(output[k]),
{
    let perm = choose|perm: Seq<int>| stable_sort_witness(input, output, perm, field, dir);
    assert forall|i: int| 0 <= i < input.len() implies #[trigger] output.contains(input[i]) by {
        assert(taken(perm, i));
        let k = choose|k: int| 0 <= k < perm.len() && #[trigger] perm[k] == i;
        assert(output[k] == input[i]);
    }
    assert forall|k: int| 0 <= k < output.len() implies #[trigger] input.contains(output[k]) by {
        assert(output[k] == input[perm[k]]);
    }
}

/// An ordered listing is in order: no file comes after one that it precedes.
pub proof fn law_sorted_listing_is_in_order(input: Seq<File>, output: Seq<File>, field: SortField, dir: SortDirection, k: int, l: int)
    requires
        sorted_stably(input, output, field, dir),
        0 <= k < l < output.len(),
    ensures
        file_order(output[k], output[l], field, dir) <= 0,
{
    let perm = choose|perm: Seq<int>| stable_sort_witness(input, output, perm, field, dir);
}

proof fn lemma_increasing_at_least_index(p: Seq<int>, k: int)
    requires
        0 <= k < p.len(),
        forall|i: int| 0 <= i < p.len() ==> 0 <= #[trigger] p[i],
        forall|i: int, j: int| 0 <= i < j < p.len() ==> #[trigger] p[i] < #[trigger] p[j],
    ensures
        p[k] >= k,
    decreases k,
{
    if k > 0 {
        lemma_increasing_at_least_index(p, k - 1);
        assert(p[k - 1] < p[k]);
    }
}

proof fn lemma_increasing_at_most_index(p: Seq<int>, k: int)
    requires
        0 <= k < p.len(),
        forall|i: int| 0 <= i < p.len() ==> #[trigger] p[i] < p.len(),
        forall|i: int, j: int| 0 <= i < j < p.len() ==> #[trigger] p[i] < #[trigger] p[j],
    ensures
        p[k] <= k,
    decreases p.len() - k,
{
    if k + 1 < p.len() {
        lemma_increasing_at_most_index(p, k + 1);
        assert(p[k] < p[k + 1]);
    }
}

/// Ordering a listing that is already in order changes nothing: sorting
/// twice with the same field and direction gives what sorting once gives.
pub proof fn law_sorting_twice_changes_nothing(input: Seq<File>, once: Seq<File>, twice: Seq<File>, field: SortField, dir: SortDirection)
    requires
        sorted_stably(input, once, field, dir),
        sorted_stably(once, twice, field, dir),
    ensures
        twice == once,
{
    let first = choose|perm: Seq<int>| stable_sort_witness(input, once, perm, field, dir);
    let p = choose|perm: Seq<int>| stable_sort_witness(once, twice, perm, field, dir);
    let n = once.len() as int;
    assert forall|k: int, l: int| 0 <= k < l < n implies #[trigger] p[k] < #[trigger] p[l] by {
        if p[k] > p[l] {
            let x = once[p[k]];
            let y = once[p[l]];
            assert(file_order(once[p[l]], once[p[k]], field, dir) <= 0);
            assert(twice[k] == x && twice[l] == y);
            assert(file_order(twice[k], twice[l], field, dir) <= 0);
            lemma_file_order_laws(x, y, x, field, dir);
            assert(file_order(twice[k], twice[l], field, dir) == 0);
        }
        assert(p[k] != p[l]);
    }
    assert forall|k: int| 0 <= k < n implies #[trigger] twice[k] == once[k] by {
        lemma_increasing_at_least_index(p, k);
        lemma_increasing_at_most_index(p, k);
        assert(twice[k] == once[p[k]]);
    }
    assert(twice.len() == once.len());
    assert(twice =~= once);
}

/// The position in `perm` that holds `i`.
spec fn position_of(perm: Seq<int>, i: int) -> int {
    choose|k: int| 0 <= k < perm.len() && perm[k] == i
}

/// The order shown depends on nothing but the listing and the settings: any
/// two stable orderings of the same listing by the same field and direction
/// are the same.
pub proof fn law_sorting_is_determined(input: Seq<File>, a: Seq<File>, b: Seq<File>, field: SortField, dir: SortDirection)
    requires
        sorted_stably(input, a, field, dir),
        sorted_stably(input, b, field, dir),
    ensures
        a == b,
{
    let p = choose|perm: Seq<int>| stable_sort_witness(input, a, perm, field, dir);
    let q = choose|perm: Seq<int>| stable_sort_witness(input, b, perm, field, dir);
    let n = input.len() as int;
    // `r` carries each entry of `b` to its place in `a`.
    let r = Seq::new(n as nat, |k: int| position_of(p, q[k]));
    assert forall|k: int| 0 <= k < n implies 0 <= #[trigger] r[k] < n && p[r[k]] == q[k] && b[k] == a[r[k]] by {
        assert(taken(p, q[k]));
    }
    assert forall|k: int, l: int| 0 <= k < l < n implies #[trigger] r[k] != #[trigger] r[l] by {
        assert(p[r[k]] == q[k] && p[r[l]] == q[l]);
    }
    assert forall|j: int| 0 <= j < n implies #[trigger] taken(r, j) by {
        assert(taken(q, p[j]));
        let k = choose|k: int| 0 <= k < q.len() && #[trigger] q[k] == p[j];
        assert(p[r[k]] == q[k]);
        if r[k] != j {
            if r[k] < j {
                assert(p[r[k]] != p[j]);
            } else {
                assert(p[j] != p[r[k]]);
            }
        }
        assert(r[k] == j);
    }
    assert forall|k: int, l: int| 0 <= k < l < n && file_order(#[trigger] b[k], #[trigger] b[l], field, dir) == 0 implies r[k] < r[l] by {
        assert(q[k] < q[l]);
        if r[k] > r[l] {
            assert(a[r[l]] == b[l] && a[r[k]] == b[k]);
            lemma_file_order_laws(b[l], b[k], b[l], field, dir);
            assert(file_order(a[r[l]], a[r[k]], field, dir) == 0);
            assert(p[r[l]] < p[r[k]]);
        }
        assert(r[k] != r[l]);
    }
    assert(stable_sort_witness(a, b, r, field, dir));
    law_sorting_twice_changes_nothing(input, a, b, field, dir);
}

/// Descending order is ascending order reversed, whatever the field: one
/// file comes before another going down exactly when it comes after it
/// going up.
pub proof fn law_descending_reverses_ascending(a: File, b: File, field: SortField)
    ensures
        file_order(a, b, field, SortDirection::Desc) == -file_order(a, b, field, SortDirection::Asc),
        file_order(a, b, field, SortDirection::Asc) == field_order(a, b, field),
{
}

/// In a listing ordered by a field, going up each file compares no greater
/// on that field than any file after it, and going down no smaller; by size
/// in particular, sizes never fall going up and never rise going down.
pub proof fn law_ordered_listing_follows_the_field(input: Seq<File>, output: Seq<File>, field: SortField, dir: SortDirection, k: int, l: int)
    requires
        sorted_stably(input, output, field, dir),
        0 <= k < l < output.len(),
    ensures
        dir == SortDirection::Asc ==> field_order(output[k], output[l], field) <= 0,
        dir == SortDirection::Desc ==> field_order(output[k], output[l], field) >= 0,
        field == SortField::Size && dir == SortDirection::Asc ==> output[k].size.0 <= output[l].size.0,
        field == SortField::Size && dir == SortDirection::Desc ==> output[k].size.0 >= output[l].size.0,
{
    law_sorted_listing_is_in_order(input, output, field, dir, k, l);
    law_descending_reverses_ascending(output[k], output[l], field);
}

} // verus!
