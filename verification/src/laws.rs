//! Laws of the rendering: each non-zero bucket appears at most once, under
//! its own suffix, in strictly decreasing unit-size order, and the rendered
//! string is exactly the `", "`-join of those components.

use vstd::prelude::*;
use vstd::arithmetic::div_mod::{
    lemma_div_denominator, lemma_div_pos_is_pos, lemma_fundamental_div_mod, lemma_mod_bound,
};
use crate::decimal::{dec_rep, lemma_dec_rep_nonempty};
use crate::durations::{
    append_part_spec, days_of, hours_of, micros_of, millis_of, minutes_of, nanos_of, seconds_of,
    spec_format, weeks_of, Span,
};

verus! {

/// The eight buckets of a magnitude of `m` nanoseconds, each with its
/// suffix, coarsest first.
pub open spec fn pairs_of(m: int) -> Seq<(int, Seq<char>)> {
    seq![
        (weeks_of(m), "w"@),
        (days_of(m), "d"@),
        (hours_of(m), "h"@),
        (minutes_of(m), "m"@),
        (seconds_of(m), "s"@),
        (millis_of(m), "ms"@),
        (micros_of(m), "\u{3bc}s"@),
        (nanos_of(m), "ns"@),
    ]
}

/// The pairs with a positive value, in their original order.
pub open spec fn kept_parts(ps: Seq<(int, Seq<char>)>) -> Seq<(int, Seq<char>)>
    decreases ps.len(),
{
    if ps.len() == 0 {
        Seq::empty()
    } else if ps[0].0 > 0 {
        seq![ps[0]] + kept_parts(ps.drop_first())
    } else {
        kept_parts(ps.drop_first())
    }
}

/// The components of the rendering of magnitude `m`: the non-zero buckets
/// with their suffixes, coarsest first.
pub open spec fn components(m: int) -> Seq<(int, Seq<char>)> {
    kept_parts(pairs_of(m))
}

/// The `", "`-join of a sequence of rendered components.
pub open spec fn join_parts(cs: Seq<(int, Seq<char>)>) -> Seq<char>
    decreases cs.len(),
{
    if cs.len() == 0 {
        Seq::empty()
    } else if cs.len() == 1 {
        dec_rep(cs[0].0) + cs[0].1
    } else {
        dec_rep(cs[0].0) + cs[0].1 + ", "@ + join_parts(cs.drop_first())
    }
}

/// Folds `append_part_spec` over the pairs, starting from `acc`.
pub open spec fn render_from(ps: Seq<(int, Seq<char>)>, acc: Seq<char>) -> Seq<char>
    decreases ps.len(),
{
    if ps.len() == 0 {
        acc
    } else {
        render_from(ps.drop_first(), append_part_spec(acc, ps[0].0, ps[0].1))
    }
}

/// The position of a suffix in the fixed coarsest-to-finest order; a larger
/// rank means a smaller unit.
pub open spec fn suffix_rank(s: Seq<char>) -> int {
    if s == "w"@ {
        0
    } else if s == "d"@ {
        1
    } else if s == "h"@ {
        2
    } else if s == "m"@ {
        3
    } else if s == "s"@ {
        4
    } else if s == "ms"@ {
        5
    } else if s == "\u{3bc}s"@ {
        6
    } else if s == "ns"@ {
        7
    } else {
        8
    }
}

/// The bucket chain of `spec_format` is the fold of the eight pairs.
proof fn lemma_chain_is_render(m: int)
    ensures
        spec_format(m) == render_from(pairs_of(m), Seq::<char>::empty()),
{
    let ps = pairs_of(m);
    let t1 = seq![
        (days_of(m), "d"@),
        (hours_of(m), "h"@),
        (minutes_of(m), "m"@),
        (seconds_of(m), "s"@),
        (millis_of(m), "ms"@),
        (micros_of(m), "\u{3bc}s"@),
        (nanos_of(m), "ns"@),
    ];
    let t2 = t1.drop_first();
    let t3 = t2.drop_first();
    let t4 = t3.drop_first();
    let t5 = t4.drop_first();
    let t6 = t5.drop_first();
    let t7 = t6.drop_first();
    let t8 = t7.drop_first();
    assert(ps.drop_first() =~= t1);
    assert(t8.len() == 0);
    let a0 = Seq::<char>::empty();
    let a1 = append_part_spec(a0, weeks_of(m), "w"@);
    let a2 = append_part_spec(a1, days_of(m), "d"@);
    let a3 = append_part_spec(a2, hours_of(m), "h"@);
    let a4 = append_part_spec(a3, minutes_of(m), "m"@);
    let a5 = append_part_spec(a4, seconds_of(m), "s"@);
    let a6 = append_part_spec(a5, millis_of(m), "ms"@);
    let a7 = append_part_spec(a6, micros_of(m), "\u{3bc}s"@);
    let a8 = append_part_spec(a7, nanos_of(m), "ns"@);
    assert(render_from(ps, a0) == render_from(t1, a1));
    assert(render_from(t1, a1) == render_from(t2, a2));
    assert(render_from(t2, a2) == render_from(t3, a3));
    assert(render_from(t3, a3) == render_from(t4, a4));
    assert(render_from(t4, a4) == render_from(t5, a5));
    assert(render_from(t5, a5) == render_from(t6, a6));
    assert(render_from(t6, a6) == render_from(t7, a7));
    assert(render_from(t7, a7) == render_from(t8, a8));
    assert(render_from(t8, a8) == a8);
    assert(spec_format(m) == a8);
}

/// Folding the buckets onto `acc` appends the `", "`-join of the kept
/// pairs, with a separator exactly when both sides are non-empty.
proof fn lemma_render_join(ps: Seq<(int, Seq<char>)>, acc: Seq<char>)
    ensures
        render_from(ps, acc) == (if kept_parts(ps).len() == 0 {
            acc
        } else if acc.len() == 0 {
            join_parts(kept_parts(ps))
        } else {
            acc + ", "@ + join_parts(kept_parts(ps))
        }),
    decreases ps.len(),
{
    if ps.len() == 0 {
    } else {
        let rest = ps.drop_first();
        let p = ps[0];
        if p.0 > 0 {
            lemma_dec_rep_nonempty(p.0);
            let part = dec_rep(p.0) + p.1;
            let acc2 = append_part_spec(acc, p.0, p.1);
            lemma_render_join(rest, acc2);
            let k = kept_parts(rest);
            assert(kept_parts(ps) == seq![p] + k);
            assert((seq![p] + k).drop_first() =~= k);
            assert((seq![p] + k)[0] == p);
            if k.len() == 0 {
                assert(join_parts(seq![p] + k) == part);
                assert(render_from(ps, acc) == acc2);
                if acc.len() == 0 {
                    assert(acc2 == part);
                } else {
                    assert(acc2 =~= acc + ", "@ + part);
                }
            } else {
                assert(join_parts(seq![p] + k) == part + ", "@ + join_parts(k));
                assert(acc2.len() > 0);
                assert(render_from(ps, acc) == acc2 + ", "@ + join_parts(k));
                if acc.len() == 0 {
                    assert(acc2 + ", "@ + join_parts(k) =~= part + ", "@ + join_parts(k));
                } else {
                    assert(acc2 + ", "@ + join_parts(k) =~= acc + ", "@ + (part + ", "@
                        + join_parts(k)));
                }
            }
        } else {
            lemma_render_join(rest, acc);
            assert(kept_parts(ps) == kept_parts(rest));
        }
    }
}

/// Every kept pair occurs among the original pairs.
proof fn lemma_kept_parts_elems(ps: Seq<(int, Seq<char>)>)
    ensures
        forall|k: int|
            0 <= k < kept_parts(ps).len() ==> ps.contains(#[trigger] kept_parts(ps)[k]),
    decreases ps.len(),
{
    if ps.len() == 0 {
    } else {
        let rest = ps.drop_first();
        lemma_kept_parts_elems(rest);
        assert forall|k: int| 0 <= k < kept_parts(ps).len() implies ps.contains(
            #[trigger] kept_parts(ps)[k],
        ) by {
            let x = kept_parts(ps)[k];
            if ps[0].0 > 0 && k == 0 {
                assert(x == ps[0]);
                assert(0 <= 0 < ps.len() && ps[0] == x);
            } else {
                let k2: int = if ps[0].0 > 0 {
                    k - 1
                } else {
                    k
                };
                assert(x == kept_parts(rest)[k2]);
                assert(rest.contains(x));
                let i = choose|i: int| 0 <= i < rest.len() && rest[i] == x;
                assert(ps[i + 1] == x);
            }
        }
    }
}

/// Keeping the positive pairs preserves a strictly increasing suffix rank.
proof fn lemma_kept_rank_sorted(ps: Seq<(int, Seq<char>)>)
    requires
        forall|i: int, j: int|
            0 <= i < j < ps.len() ==> suffix_rank(ps[i].1) < suffix_rank(ps[j].1),
    ensures
        forall|i: int, j: int|
            0 <= i < j < kept_parts(ps).len() ==> suffix_rank(kept_parts(ps)[i].1) < suffix_rank(
                kept_parts(ps)[j].1,
            ),
    decreases ps.len(),
{
    if ps.len() == 0 {
    } else {
        let rest = ps.drop_first();
        assert forall|i: int, j: int| 0 <= i < j < rest.len() implies suffix_rank(rest[i].1)
            < suffix_rank(rest[j].1) by {
            assert(rest[i] == ps[i + 1]);
            assert(rest[j] == ps[j + 1]);
        }
        lemma_kept_rank_sorted(rest);
        lemma_kept_parts_elems(rest);
        assert forall|i: int, j: int| 0 <= i < j < kept_parts(ps).len() implies suffix_rank(
            kept_parts(ps)[i].1,
        ) < suffix_rank(kept_parts(ps)[j].1) by {
            if ps[0].0 > 0 {
                assert(kept_parts(ps) == seq![ps[0]] + kept_parts(rest));
                if i == 0 {
                    let y = kept_parts(ps)[j];
                    assert(y == kept_parts(rest)[j - 1]);
                    assert(rest.contains(y));
                    let t = choose|t: int| 0 <= t < rest.len() && rest[t] == y;
                    assert(ps[t + 1] == y);
                    assert(suffix_rank(ps[0].1) < suffix_rank(ps[t + 1].1));
                } else {
                    assert(kept_parts(ps)[i] == kept_parts(rest)[i - 1]);
                    assert(kept_parts(ps)[j] == kept_parts(rest)[j - 1]);
                }
            } else {
                assert(kept_parts(ps) == kept_parts(rest));
            }
        }
    }
}

/// The eight fixed suffixes stand in strictly increasing rank order.
proof fn lemma_pairs_sorted(m: int)
    ensures
        forall|i: int, j: int|
            0 <= i < j < pairs_of(m).len() ==> suffix_rank(pairs_of(m)[i].1) < suffix_rank(
                pairs_of(m)[j].1,
            ),
{
    reveal_strlit("w");
    reveal_strlit("d");
    reveal_strlit("h");
    reveal_strlit("m");
    reveal_strlit("s");
    reveal_strlit("ms");
    reveal_strlit("\u{3bc}s");
    reveal_strlit("ns");
    assert("w"@.len() == 1 && "w"@[0] == 'w');
    assert("d"@.len() == 1 && "d"@[0] == 'd');
    assert("h"@.len() == 1 && "h"@[0] == 'h');
    assert("m"@.len() == 1 && "m"@[0] == 'm');
    assert("s"@.len() == 1 && "s"@[0] == 's');
    assert("ms"@.len() == 2 && "ms"@[0] == 'm' && "ms"@[1] == 's');
    assert("\u{3bc}s"@.len() == 2 && "\u{3bc}s"@[0] == '\u{3bc}' && "\u{3bc}s"@[1] == 's');
    assert("ns"@.len() == 2 && "ns"@[0] == 'n' && "ns"@[1] == 's');
    assert(suffix_rank("w"@) == 0);
    assert(suffix_rank("d"@) == 1);
    assert(suffix_rank("h"@) == 2);
    assert(suffix_rank("m"@) == 3);
    assert(suffix_rank("s"@) == 4);
    assert(suffix_rank("ms"@) == 5);
    assert(suffix_rank("\u{3bc}s"@) == 6);
    assert(suffix_rank("ns"@) == 7);
    assert forall|i: int, j: int| 0 <= i < j < pairs_of(m).len() implies suffix_rank(
        pairs_of(m)[i].1,
    ) < suffix_rank(pairs_of(m)[j].1) by {
        assert(suffix_rank(pairs_of(m)[i].1) == i);
        assert(suffix_rank(pairs_of(m)[j].1) == j);
    }
}

/// Law: the components of a rendering appear in strictly decreasing
/// unit-size order, weeks first, nanoseconds last.
pub proof fn lemma_suffix_order(m: int)
    ensures
        forall|i: int, j: int|
            0 <= i < j < components(m).len() ==> suffix_rank(components(m)[i].1) < suffix_rank(
                components(m)[j].1,
            ),
{
    lemma_pairs_sorted(m);
    lemma_kept_rank_sorted(pairs_of(m));
}

/// Law: no two components of a rendering share a suffix.
pub proof fn lemma_no_duplicate_suffix(m: int)
    ensures
        forall|i: int, j: int|
            0 <= i < j < components(m).len() ==> components(m)[i].1 != components(m)[j].1,
{
    lemma_suffix_order(m);
}

/// Law: the rendered string is exactly the `", "`-join of the components,
/// and empty exactly when there is no component.
pub proof fn lemma_format_is_join(m: int)
    ensures
        components(m).len() == 0 ==> spec_format(m) == Seq::<char>::empty(),
        components(m).len() > 0 ==> spec_format(m) == join_parts(components(m)),
{
    lemma_chain_is_render(m);
    lemma_render_join(pairs_of(m), Seq::<char>::empty());
}

/// Law: a zero magnitude renders as the empty string.
pub proof fn lemma_format_zero()
    ensures
        spec_format(0) == Seq::<char>::empty(),
{
    assert(weeks_of(0) == 0);
    assert(days_of(0) == 0);
    assert(hours_of(0) == 0);
    assert(minutes_of(0) == 0);
    assert(seconds_of(0) == 0);
    assert(millis_of(0) == 0);
    assert(micros_of(0) == 0);
    assert(nanos_of(0) == 0);
}

/// Law: every bucket of a magnitude lies within its modulus range.
pub proof fn lemma_bucket_ranges(m: int)
    requires
        0 <= m,
    ensures
        0 <= weeks_of(m),
        0 <= days_of(m) < 7,
        0 <= hours_of(m) < 24,
        0 <= minutes_of(m) < 60,
        0 <= seconds_of(m) < 60,
        0 <= millis_of(m) < 1_000,
        0 <= micros_of(m) < 1_000,
        0 <= nanos_of(m) < 1_000,
{
    lemma_div_pos_is_pos(m, 604_800_000_000_000);
    lemma_mod_bound(m / 86_400_000_000_000, 7);
    lemma_mod_bound(m / 3_600_000_000_000, 24);
    lemma_mod_bound(m / 60_000_000_000, 60);
    lemma_mod_bound(m / 1_000_000_000, 60);
    lemma_mod_bound(m / 1_000_000, 1_000);
    lemma_mod_bound(m / 1_000, 1_000);
    lemma_mod_bound(m, 1_000);
}

/// Law: the buckets are exact remainders: weighted by their unit sizes
/// they add back up to the magnitude they were extracted from.
pub proof fn lemma_buckets_reconstruct(m: int)
    requires
        0 <= m,
    ensures
        m == weeks_of(m) * 604_800_000_000_000 + days_of(m) * 86_400_000_000_000 + hours_of(m)
            * 3_600_000_000_000 + minutes_of(m) * 60_000_000_000 + seconds_of(m) * 1_000_000_000
            + millis_of(m) * 1_000_000 + micros_of(m) * 1_000 + nanos_of(m),
{
    let q1 = m / 1_000;
    let q2 = m / 1_000_000;
    let q3 = m / 1_000_000_000;
    let q4 = m / 60_000_000_000;
    let q5 = m / 3_600_000_000_000;
    let q6 = m / 86_400_000_000_000;
    let q7 = m / 604_800_000_000_000;
    lemma_div_denominator(m, 1_000, 1_000);
    assert(q1 / 1_000 == q2);
    lemma_div_denominator(m, 1_000_000, 1_000);
    assert(q2 / 1_000 == q3);
    lemma_div_denominator(m, 1_000_000_000, 60);
    assert(q3 / 60 == q4);
    lemma_div_denominator(m, 60_000_000_000, 60);
    assert(q4 / 60 == q5);
    lemma_div_denominator(m, 3_600_000_000_000, 24);
    assert(q5 / 24 == q6);
    lemma_div_denominator(m, 86_400_000_000_000, 7);
    assert(q6 / 7 == q7);
    lemma_fundamental_div_mod(m, 1_000);
    lemma_fundamental_div_mod(q1, 1_000);
    lemma_fundamental_div_mod(q2, 1_000);
    lemma_fundamental_div_mod(q3, 60);
    lemma_fundamental_div_mod(q4, 60);
    lemma_fundamental_div_mod(q5, 24);
    lemma_fundamental_div_mod(q6, 7);
}

/// Law: two spans denoting the same length of time render identically,
/// whatever their field decomposition.
pub proof fn lemma_format_deterministic(a: Span, b: Span)
    requires
        a.total_ns() == b.total_ns(),
    ensures
        spec_format(a.mag_ns()) == spec_format(b.mag_ns()),
{
}

} // verus!
