//! Comparison of dotted version numbers such as `1.4.2`.
use vstd::prelude::*;

use crate::numbers::{parse_u32_chars, spec_parse_u32};
use crate::strings::{chars_of, lemma_pieces_concat, lemma_pieces_without_separator, pieces};

verus! {

/// The numbers that the pieces of a version give, in order; a piece that
/// is not a `u32` is left out.
pub open spec fn parsed_parts(ps: Seq<Seq<char>>) -> Seq<u32>
    decreases ps.len(),
{
    if ps.len() == 0 {
        Seq::empty()
    } else {
        let rest = parsed_parts(ps.drop_last());
        match spec_parse_u32(ps.last()) {
            Some(v) => rest.push(v),
            None => rest,
        }
    }
}

/// `v.split('.').filter_map(|s| s.parse().ok())`.
pub open spec fn version_parts(v: Seq<char>) -> Seq<u32> {
    parsed_parts(pieces(v, seq!['.']))
}

/// Part `i` of a version, zero past its end.
pub open spec fn part_at(p: Seq<u32>, i: int) -> int {
    if 0 <= i < p.len() {
        p[i] as int
    } else {
        0
    }
}

pub open spec fn max_len(a: Seq<u32>, b: Seq<u32>) -> int {
    if a.len() >= b.len() {
        a.len() as int
    } else {
        b.len() as int
    }
}

/// Compares parts from position `i` on: the sign of the first difference.
pub open spec fn compare_from(a: Seq<u32>, b: Seq<u32>, i: int) -> int
    decreases max_len(a, b) - i,
{
    if i < 0 || i >= max_len(a, b) {
        0
    } else if part_at(a, i) > part_at(b, i) {
        1
    } else if part_at(a, i) < part_at(b, i) {
        -1
    } else {
        compare_from(a, b, i + 1)
    }
}

/// `1` where `new` is the later version, `-1` where it is the earlier, `0`
/// where they are the same once the shorter is padded with zeros.
pub open spec fn compare_versions_spec(new: Seq<char>, current: Seq<char>) -> int {
    compare_from(version_parts(new), version_parts(current), 0)
}

/// The numeric parts of a version string.
pub fn version_parts_of(v: &str) -> (out: Vec<u32>)
    ensures
        out@ == version_parts(v@),
{
    let cs = chars_of(v);
    let ghost seps = seq!['.'];
    let mut out: Vec<u32> = Vec::new();
    let mut cur: Vec<char> = Vec::new();
    let mut i: usize = 0;
    proof {
        assert(cs@.take(0) =~= Seq::<char>::empty());
    }
    while i < cs.len()
        invariant
            i <= cs.len(),
            seps == seq!['.'],
            pieces(cs@.take(i as int), seps).len() >= 1,
            out@ == parsed_parts(pieces(cs@.take(i as int), seps).drop_last()),
            cur@ == pieces(cs@.take(i as int), seps).last(),
        decreases cs.len() - i,
    {
        let c = cs[i];
        let ghost before = pieces(cs@.take(i as int), seps);
        let ghost pre = cs@.take(i + 1);
        assert(pre.drop_last() =~= cs@.take(i as int));
        assert(pre.last() == c);
        if c == '.' {
            assert(seps.contains(c)) by {
                assert(seps[0] == '.');
            }
            assert(pieces(pre, seps) == before.push(Seq::<char>::empty()));
            assert(pieces(pre, seps).drop_last() =~= before);
            assert(before.drop_last().push(before.last()) =~= before);
            assert(parsed_parts(before) == match spec_parse_u32(before.last()) {
                Some(v) => parsed_parts(before.drop_last()).push(v),
                None => parsed_parts(before.drop_last()),
            });
            match parse_u32_chars(&cur) {
                Some(n) => out.push(n),
                None => {},
            }
            cur = Vec::new();
            assert(cur@ =~= pieces(pre, seps).last());
        } else {
            assert(!seps.contains(c)) by {
                if seps.contains(c) {
                    let k = choose|k: int| 0 <= k < seps.len() && seps[k] == c;
                }
            }
            let ghost after = before.update(before.len() - 1, before.last().push(c));
            assert(pieces(pre, seps) == after);
            assert(after.drop_last() =~= before.drop_last());
            cur.push(c);
        }
        i += 1;
    }
    assert(cs@.take(cs.len() as int) =~= cs@);
    let ghost all = pieces(cs@, seps);
    assert(all.drop_last().push(all.last()) =~= all);
    match parse_u32_chars(&cur) {
        Some(n) => out.push(n),
        None => {},
    }
    out
}

/// Compares two dotted versions: `1` where `new` is later than `current`,
/// `-1` where it is earlier, `0` where they are equal. Parts that are not
/// numbers are skipped, and the shorter version counts as padded with
/// zeros.
pub fn compare_versions(new: &str, current: &str) -> (r: i32)
    ensures
        r as int == compare_versions_spec(new@, current@),
{
    let new_parts = version_parts_of(new);
    let current_parts = version_parts_of(current);
    let n = if new_parts.len() >= current_parts.len() {
        new_parts.len()
    } else {
        current_parts.len()
    };
    let mut i: usize = 0;
    while i < n
        invariant
            new_parts@ == version_parts(new@),
            current_parts@ == version_parts(current@),
            n == max_len(new_parts@, current_parts@),
            i <= n,
            compare_from(new_parts@, current_parts@, 0) == compare_from(
                new_parts@,
                current_parts@,
                i as int,
            ),
        decreases n - i,
    {
        let a: u32 = if i < new_parts.len() { new_parts[i] } else { 0 };
        let b: u32 = if i < current_parts.len() { current_parts[i] } else { 0 };
        assert(part_at(new_parts@, i as int) == a as int);
        assert(part_at(current_parts@, i as int) == b as int);
        if a > b {
            return 1;
        } else if a < b {
            return -1;
        }
        i += 1;
    }
    0
}

proof fn lemma_compare_from_antisymmetric(a: Seq<u32>, b: Seq<u32>, i: int)
    ensures
        compare_from(a, b, i) == -compare_from(b, a, i),
    decreases max_len(a, b) - i,
{
    if 0 <= i < max_len(a, b) && part_at(a, i) == part_at(b, i) {
        lemma_compare_from_antisymmetric(a, b, i + 1);
    }
}

proof fn lemma_compare_from_range(a: Seq<u32>, b: Seq<u32>, i: int)
    ensures
        -1 <= compare_from(a, b, i) <= 1,
    decreases max_len(a, b) - i,
{
    if 0 <= i < max_len(a, b) && part_at(a, i) == part_at(b, i) {
        lemma_compare_from_range(a, b, i + 1);
    }
}

proof fn lemma_compare_from_zero(a: Seq<u32>, b: Seq<u32>, i: int)
    requires
        0 <= i,
    ensures
        compare_from(a, b, i) == 0 <==> (forall|k: int| k >= i ==> #[trigger] part_at(a, k) == part_at(b, k)),
    decreases max_len(a, b) - i,
{
    if i < max_len(a, b) {
        lemma_compare_from_zero(a, b, i + 1);
        if part_at(a, i) != part_at(b, i) {
        } else {
            assert((forall|k: int| k >= i + 1 ==> #[trigger] part_at(a, k) == part_at(b, k)) ==> (
            forall|k: int| k >= i ==> #[trigger] part_at(a, k) == part_at(b, k))) by {
                if forall|k: int| k >= i + 1 ==> #[trigger] part_at(a, k) == part_at(b, k) {
                    assert forall|k: int| k >= i implies #[trigger] part_at(a, k) == part_at(b, k) by {
                        if k > i {
                            assert(part_at(a, k) == part_at(b, k));
                        }
                    }
                }
            }
        }
    } else {
        assert forall|k: int| k >= i implies #[trigger] part_at(a, k) == part_at(b, k) by {}
    }
}

proof fn lemma_compare_from_transitive(a: Seq<u32>, b: Seq<u32>, c: Seq<u32>, i: int)
    requires
        0 <= i,
        compare_from(a, b, i) >= 0,
        compare_from(b, c, i) >= 0,
    ensures
        compare_from(a, c, i) >= 0,
        compare_from(a, b, i) == 1 || compare_from(b, c, i) == 1 ==> compare_from(a, c, i) == 1,
    decreases max_len(a, b) + max_len(b, c) + max_len(a, c) - i,
{
    if i < max_len(a, b) || i < max_len(b, c) || i < max_len(a, c) {
        if part_at(a, i) == part_at(b, i) && part_at(b, i) == part_at(c, i) {
            lemma_compare_from_transitive(a, b, c, i + 1);
        }
    }
}

/// Every version equals itself.
pub proof fn law_compare_reflexive(v: Seq<char>)
    ensures
        compare_versions_spec(v, v) == 0,
{
    lemma_compare_from_zero(version_parts(v), version_parts(v), 0);
}

/// Swapping the two versions flips the sign of the comparison, and the
/// result is always one of `-1`, `0`, `1`.
pub proof fn law_compare_antisymmetric(x: Seq<char>, y: Seq<char>)
    ensures
        compare_versions_spec(x, y) == -compare_versions_spec(y, x),
        -1 <= compare_versions_spec(x, y) <= 1,
{
    lemma_compare_from_antisymmetric(version_parts(x), version_parts(y), 0);
    lemma_compare_from_range(version_parts(x), version_parts(y), 0);
}

/// Two versions compare equal exactly when their numeric parts agree
/// once both are padded with zeros (so `1.0` equals `1`).
pub proof fn law_compare_equal_iff_padded_parts_agree(x: Seq<char>, y: Seq<char>)
    ensures
        compare_versions_spec(x, y) == 0 <==> (forall|k: int|
            k >= 0 ==> #[trigger] part_at(version_parts(x), k) == part_at(version_parts(y), k)),
{
    lemma_compare_from_zero(version_parts(x), version_parts(y), 0);
}

/// The order is transitive: if `x` is no earlier than `y` and `y` no
/// earlier than `z`, then `x` is no earlier than `z`, and strictly later
/// where either step is strict.
pub proof fn law_compare_transitive(x: Seq<char>, y: Seq<char>, z: Seq<char>)
    requires
        compare_versions_spec(x, y) >= 0,
        compare_versions_spec(y, z) >= 0,
    ensures
        compare_versions_spec(x, z) >= 0,
        compare_versions_spec(x, y) == 1 || compare_versions_spec(y, z) == 1
            ==> compare_versions_spec(x, z) == 1,
{
    lemma_compare_from_transitive(version_parts(x), version_parts(y), version_parts(z), 0);
}

proof fn lemma_parsed_parts_concat(p: Seq<Seq<char>>, q: Seq<Seq<char>>)
    ensures
        parsed_parts(p + q) == parsed_parts(p) + parsed_parts(q),
    decreases q.len(),
{
    if q.len() == 0 {
        assert(p + q =~= p);
        assert(parsed_parts(p) + parsed_parts(q) =~= parsed_parts(p));
    } else {
        lemma_parsed_parts_concat(p, q.drop_last());
        assert((p + q).drop_last() =~= p + q.drop_last());
        assert((p + q).last() == q.last());
        match spec_parse_u32(q.last()) {
            Some(v) => {
                assert((parsed_parts(p) + parsed_parts(q.drop_last())).push(v) =~= parsed_parts(p)
                    + parsed_parts(q.drop_last()).push(v));
            },
            None => {},
        }
    }
}

/// A version with no dot has one part, the number it is, zero included;
/// nothing where it is not a `u32`.
pub proof fn law_version_single_part(v: Seq<char>)
    requires
        forall|k: int| 0 <= k < v.len() ==> v[k] != '.',
    ensures
        version_parts(v) == (match spec_parse_u32(v) {
            Some(n) => seq![n],
            None => Seq::<u32>::empty(),
        }),
{
    assert forall|k: int| 0 <= k < v.len() implies !seq!['.'].contains(#[trigger] v[k]) by {
        if seq!['.'].contains(v[k]) {
            let j = choose|j: int| 0 <= j < 1 && seq!['.'][j] == v[k];
        }
    }
    lemma_pieces_without_separator(v, seq!['.']);
    let ps = seq![v];
    assert(ps.drop_last() =~= Seq::<Seq<char>>::empty());
    assert(ps.last() == v);
    assert(parsed_parts(Seq::<Seq<char>>::empty()) =~= Seq::<u32>::empty());
}

/// The parts of `a.b` are the parts of `a` followed by the parts of `b`:
/// every dot-separated piece contributes, in order.
pub proof fn law_version_parts_concat(a: Seq<char>, b: Seq<char>)
    ensures
        version_parts(a + seq!['.'] + b) == version_parts(a) + version_parts(b),
{
    assert(seq!['.'].contains('.')) by {
        assert(seq!['.'][0] == '.');
    }
    lemma_pieces_concat(a, '.', b, seq!['.']);
    lemma_parsed_parts_concat(pieces(a, seq!['.']), pieces(b, seq!['.']));
}

/// The first position where the zero-padded parts differ decides: the
/// version whose part is larger there is the later one.
pub proof fn law_compare_first_difference(x: Seq<char>, y: Seq<char>, k: int)
    requires
        0 <= k,
        forall|j: int| 0 <= j < k ==> #[trigger] part_at(version_parts(x), j) == part_at(version_parts(y), j),
        part_at(version_parts(x), k) > part_at(version_parts(y), k),
    ensures
        compare_versions_spec(x, y) == 1,
{
    lemma_compare_first_difference(version_parts(x), version_parts(y), 0, k);
}

proof fn lemma_compare_first_difference(a: Seq<u32>, b: Seq<u32>, i: int, k: int)
    requires
        0 <= i <= k,
        forall|j: int| i <= j < k ==> #[trigger] part_at(a, j) == part_at(b, j),
        part_at(a, k) > part_at(b, k),
    ensures
        compare_from(a, b, i) == 1,
    decreases k - i,
{
    if i < k {
        assert(part_at(a, i) == part_at(b, i));
        lemma_compare_first_difference(a, b, i + 1, k);
    }
}

} // verus!
