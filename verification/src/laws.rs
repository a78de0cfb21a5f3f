//! Laws of the pipeline, stated and proved once for all inputs: acceptance of
//! in-range discriminants, totality of exhaustive reconstruction, rejection of
//! silently-total declarations, marker/mode agreement, and the width
//! boundaries.

use vstd::arithmetic::power2::pow2;
use vstd::prelude::*;
use vstd::seq_lib::seq_to_set_is_finite;
use vstd::set_lib::{lemma_int_range, lemma_len_subset, lemma_subset_equality, set_int_range};

use crate::model::{ErrorView, Exhaustiveness, VariantView};
use crate::numeral::discr_parse_spec;
use crate::variants::{cross_check_spec, uses_conditional, variant_spec, AnalyzedView};
use crate::expand::lookup_spec;
use crate::width::{lemma_pow2_within_64, native_width, storage_of};

verus! {

/// Whether some analyzed variant carries the value `raw`.
pub open spec fn covers(avs: Seq<AnalyzedView>, raw: u64) -> bool {
    exists|i: int| 0 <= i < avs.len() && (#[trigger] avs[i]).value == raw
}

/// Any variant whose discriminant denotes a value below two to the declared
/// width is accepted, and the analyzed record carries exactly that value —
/// which is what the packed-integer accessor returns for it.
pub proof fn lemma_in_range_variant_accepted(v: VariantView, w: nat, t: Seq<char>, val: nat)
    requires
        1 <= w <= 64,
        v.discriminant == Some(t),
        discr_parse_spec(t) == Some(val),
        val < pow2(w),
    ensures
        variant_spec(v, w) matches Ok(a) && a.value == val && a.name == v.name && a.expression
            == t,
{
    lemma_pow2_within_64(w);
}

/// A discriminant of exactly two to the declared width — one past the
/// maximum — is rejected, for every width.
pub proof fn lemma_one_past_maximum_rejected(v: VariantView, w: nat, t: Seq<char>)
    requires
        1 <= w <= 64,
        v.discriminant == Some(t),
        discr_parse_spec(t) == Some(pow2(w)),
    ensures
        variant_spec(v, w) == Err::<AnalyzedView, ErrorView>(
            ErrorView::DiscriminantTooLarge(v.name),
        ),
{
}

/// When some variant carries `raw`, the reconstruction match lands on the
/// first such variant: success, holding a variant whose value is `raw`.
pub proof fn lemma_lookup_some_match(avs: Seq<AnalyzedView>, raw: u64)
    requires
        covers(avs, raw),
    ensures
        lookup_spec(avs, raw) matches Ok(i) && 0 <= i < avs.len() && avs[i].value == raw,
    decreases avs.len(),
{
    if avs[0].value == raw {
    } else {
        let i = choose|i: int| 0 <= i < avs.len() && (#[trigger] avs[i]).value == raw;
        assert(avs.skip(1)[i - 1] == avs[i]);
        assert(covers(avs.skip(1), raw));
        lemma_lookup_some_match(avs.skip(1), raw);
        let j = choose|j: int| lookup_spec(avs.skip(1), raw) == Ok::<int, u64>(j);
        assert(avs[j + 1] == avs.skip(1)[j]);
    }
}

/// Exhaustive coverage makes reconstruction total: when every integer below
/// two to the width is some variant's value, every in-range input
/// reconstructs successfully to a variant holding exactly that input.
pub proof fn lemma_exhaustive_reconstruction_total(avs: Seq<AnalyzedView>, w: nat, raw: u64)
    requires
        w <= 64,
        forall|r: u64| r < pow2(w) ==> #[trigger] covers(avs, r),
        raw < pow2(w),
    ensures
        lookup_spec(avs, raw) matches Ok(i) && 0 <= i < avs.len() && avs[i].value == raw,
{
    assert(covers(avs, raw));
    lemma_lookup_some_match(avs, raw);
}

/// Covering every integer below two to the width takes at least that many
/// variants.
pub proof fn lemma_coverage_needs_count(avs: Seq<AnalyzedView>, w: nat)
    requires
        w <= 64,
        forall|r: u64| r < pow2(w) ==> #[trigger] covers(avs, r),
    ensures
        avs.len() >= pow2(w),
{
    broadcast use seq_to_set_is_finite;

    lemma_pow2_within_64(w);
    let values = avs.map_values(|a: AnalyzedView| a.value as int);
    let range = set_int_range(0, pow2(w) as int);
    lemma_int_range(0, pow2(w) as int);
    assert forall|x: int| range.contains(x) implies values.to_set().contains(x) by {
        assert(covers(avs, x as u64));
        let i = choose|i: int| 0 <= i < avs.len() && (#[trigger] avs[i]).value == x as u64;
        assert(values[i] == x);
        assert(values.contains(x));
    }
    assert(range.subset_of(values.to_set()));
    values.lemma_cardinality_of_set();
    lemma_len_subset(range, values.to_set());
}

/// Distinct in-range discriminants in full count cover every representable
/// integer — the counting argument behind the exhaustive mode's check.
pub proof fn lemma_count_forces_coverage(avs: Seq<AnalyzedView>, w: nat)
    requires
        w <= 64,
        avs.len() == pow2(w),
        forall|i: int| 0 <= i < avs.len() ==> (#[trigger] avs[i]).value < pow2(w),
        forall|i: int, j: int| 0 <= i < j < avs.len() ==> avs[i].value != avs[j].value,
    ensures
        forall|r: u64| r < pow2(w) ==> #[trigger] covers(avs, r),
{
    broadcast use seq_to_set_is_finite;
    broadcast use vstd::set::group_set_axioms;

    lemma_pow2_within_64(w);
    let values = avs.map_values(|a: AnalyzedView| a.value as int);
    let range = set_int_range(0, pow2(w) as int);
    lemma_int_range(0, pow2(w) as int);
    assert forall|i: int, j: int|
        (0 <= i < values.len() && 0 <= j < values.len() && i != j) implies values[i]
        != values[j] by {
        if i < j {
            assert(avs[i].value != avs[j].value);
        } else {
            assert(avs[j].value != avs[i].value);
        }
    }
    assert(values.no_duplicates());
    values.unique_seq_to_set();
    assert forall|x: int| values.to_set().contains(x) implies range.contains(x) by {
        let i = choose|i: int| 0 <= i < values.len() && values[i] == x;
        assert(avs[i].value < pow2(w));
    }
    assert(values.to_set().subset_of(range));
    lemma_subset_equality(values.to_set(), range);
    assert forall|r: u64| r < pow2(w) implies #[trigger] covers(avs, r) by {
        assert(range.contains(r as int));
        assert(values.to_set().contains(r as int));
        let i = choose|i: int| 0 <= i < values.len() && values[i] == r as int;
        assert(avs[i].value == r);
        assert(covers(avs, r));
    }
}

/// An accepted analysis that promises infallible reconstruction keeps the
/// promise: with distinct discriminants, every in-range integer reconstructs
/// to a variant holding exactly it — the defensive default arm is
/// unreachable.
pub proof fn lemma_infallible_reconstruction_total(
    ex: Exhaustiveness,
    avs: Seq<AnalyzedView>,
    w: nat,
    raw: u64,
)
    requires
        w <= 64,
        cross_check_spec(ex, avs, w) == Ok::<bool, ErrorView>(false),
        forall|i: int| 0 <= i < avs.len() ==> (#[trigger] avs[i]).value < pow2(w),
        forall|i: int, j: int| 0 <= i < j < avs.len() ==> avs[i].value != avs[j].value,
        raw < pow2(w),
    ensures
        lookup_spec(avs, raw) matches Ok(i) && 0 <= i < avs.len() && avs[i].value == raw,
{
    assert(ex == Exhaustiveness::True);
    assert(avs.len() == pow2(w));
    lemma_count_forces_coverage(avs, w);
    lemma_exhaustive_reconstruction_total(avs, w, raw);
}

/// A declaration that covers every representable integer but is not flagged
/// exhaustive fails the analysis.
pub proof fn lemma_full_coverage_needs_flag(ex: Exhaustiveness, avs: Seq<AnalyzedView>, w: nat)
    requires
        1 <= w <= 64,
        ex == Exhaustiveness::False,
        forall|r: u64| r < pow2(w) ==> #[trigger] covers(avs, r),
    ensures
        cross_check_spec(ex, avs, w) is Err,
        !uses_conditional(avs) ==> cross_check_spec(ex, avs, w) == Err::<bool, ErrorView>(
            ErrorView::NotMarkedExhaustive,
        ),
{
    lemma_coverage_needs_count(avs, w);
}

/// A declaration flagged exhaustive whose variant count is not the full range
/// fails the analysis for want of variants.
pub proof fn lemma_missing_variant_rejected(ex: Exhaustiveness, avs: Seq<AnalyzedView>, w: nat)
    requires
        ex == Exhaustiveness::True,
        !uses_conditional(avs),
        avs.len() != pow2(w),
    ensures
        cross_check_spec(ex, avs, w) == Err::<bool, ErrorView>(ErrorView::MissingVariants),
{
}

/// Conditional markers and the conditional mode must name each other: a
/// marker without the mode, or the mode without a marker, is rejected, and an
/// accepted analysis has them agree.
pub proof fn lemma_conditional_consistency(ex: Exhaustiveness, avs: Seq<AnalyzedView>, w: nat)
    ensures
        uses_conditional(avs) && ex != Exhaustiveness::Conditional ==> cross_check_spec(ex, avs, w)
            == Err::<bool, ErrorView>(ErrorView::ConditionalNotMarked),
        !uses_conditional(avs) && ex == Exhaustiveness::Conditional ==> cross_check_spec(
            ex,
            avs,
            w,
        ) == Err::<bool, ErrorView>(ErrorView::ConditionalNotUsed),
        cross_check_spec(ex, avs, w) is Ok ==> (uses_conditional(avs) <==> ex
            == Exhaustiveness::Conditional),
{
}

/// The storage integer is the smallest native width holding the declared
/// bits; a width landing exactly on a native width is stored unwrapped.
pub proof fn lemma_width_boundary(w: nat)
    requires
        1 <= w <= 64,
    ensures
        w <= storage_of(w),
        native_width(storage_of(w)),
        forall|n: nat| #[trigger] native_width(n) && w <= n ==> storage_of(w) <= n,
        native_width(w) ==> storage_of(w) == w,
{
}

} // verus!
