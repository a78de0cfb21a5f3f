//! The variant analyzer: every variant must carry a literal discriminant that
//! fits the declared width; conditional-compilation markers are collected for
//! re-emission; and the declared exhaustiveness is cross-checked against what
//! the variants show.

use vstd::arithmetic::power2::pow2;
use vstd::prelude::*;

use crate::model::{AttrInput, AttrView, BitenumError, ErrorView, Exhaustiveness, VariantView, VariantInput};
use crate::numeral::{discr_parse_spec, parse_discriminant};
use crate::text::{copy_str, str_eq};
use crate::width::{lemma_pow2_within_64, pow2_u128};

verus! {

/// One analyzed variant: its name, the discriminant expression kept verbatim
/// for re-emission, the discriminant's numeric value, and the variant's
/// conditional-compilation markers in order.
#[derive(Debug)]
pub struct AnalyzedVariant {
    pub name: String,
    pub expression: String,
    pub value: u64,
    pub cfg_attrs: Vec<AttrInput>,
}

/// Mathematical image of an [`AnalyzedVariant`].
pub struct AnalyzedView {
    pub name: Seq<char>,
    pub expression: Seq<char>,
    pub value: u64,
    pub cfg_attrs: Seq<AttrView>,
}

impl View for AnalyzedVariant {
    type V = AnalyzedView;

    open spec fn view(&self) -> AnalyzedView {
        AnalyzedView {
            name: self.name@,
            expression: self.expression@,
            value: self.value,
            cfg_attrs: self.cfg_attrs.deep_view(),
        }
    }
}

impl DeepView for AnalyzedVariant {
    type V = AnalyzedView;

    open spec fn deep_view(&self) -> AnalyzedView {
        self.view()
    }
}

/// The attributes among `attrs` whose path is `cfg`, order kept.
pub open spec fn cfg_of(attrs: Seq<AttrView>) -> Seq<AttrView>
    decreases attrs.len(),
{
    if attrs.len() == 0 {
        Seq::empty()
    } else if attrs.last().path == "cfg"@ {
        cfg_of(attrs.drop_last()).push(attrs.last())
    } else {
        cfg_of(attrs.drop_last())
    }
}

/// What analyzing one variant yields: an analyzed record, or the error that
/// aborts the expansion. A missing discriminant is detected before a
/// malformed one, and a malformed one before the range check.
pub open spec fn variant_spec(v: VariantView, w: nat) -> Result<AnalyzedView, ErrorView> {
    match v.discriminant {
        None => Err(ErrorView::MissingDiscriminant(v.name)),
        Some(text) => match discr_parse_spec(text) {
            None => Err(ErrorView::MalformedDiscriminant(text)),
            Some(val) => if val >= pow2(w) {
                Err(ErrorView::DiscriminantTooLarge(v.name))
            } else {
                Ok(
                    AnalyzedView {
                        name: v.name,
                        expression: text,
                        value: val as u64,
                        cfg_attrs: cfg_of(v.attrs),
                    },
                )
            },
        },
    }
}

/// Analyzing every variant in declaration order, first error wins.
pub open spec fn variants_spec(vs: Seq<VariantView>, w: nat) -> Result<Seq<AnalyzedView>, ErrorView>
    decreases vs.len(),
{
    if vs.len() == 0 {
        Ok(Seq::empty())
    } else {
        match variants_spec(vs.drop_last(), w) {
            Err(e) => Err(e),
            Ok(prefix) => match variant_spec(vs.last(), w) {
                Err(e) => Err(e),
                Ok(a) => Ok(prefix.push(a)),
            },
        }
    }
}

/// Whether any analyzed variant carries a conditional-compilation marker.
pub open spec fn uses_conditional(avs: Seq<AnalyzedView>) -> bool {
    exists|i: int| 0 <= i < avs.len() && (#[trigger] avs[i]).cfg_attrs.len() > 0
}

/// The cross-validation after all variants are processed: marker use and the
/// declared exhaustiveness must agree, and the variant count must fit the
/// mode. On success, yields whether reconstruction is fallible.
pub open spec fn cross_check_spec(ex: Exhaustiveness, avs: Seq<AnalyzedView>, w: nat) -> Result<
    bool,
    ErrorView,
> {
    if uses_conditional(avs) && ex != Exhaustiveness::Conditional {
        Err(ErrorView::ConditionalNotMarked)
    } else if !uses_conditional(avs) && ex == Exhaustiveness::Conditional {
        Err(ErrorView::ConditionalNotUsed)
    } else if ex == Exhaustiveness::True && avs.len() != pow2(w) {
        Err(ErrorView::MissingVariants)
    } else if ex == Exhaustiveness::False && avs.len() >= pow2(w) {
        Err(ErrorView::NotMarkedExhaustive)
    } else {
        Ok(ex != Exhaustiveness::True)
    }
}

/// The whole analysis: every variant analyzed, then cross-validated.
pub open spec fn analysis_spec(w: nat, ex: Exhaustiveness, vs: Seq<VariantView>) -> Result<
    (Seq<AnalyzedView>, bool),
    ErrorView,
> {
    match variants_spec(vs, w) {
        Err(e) => Err(e),
        Ok(avs) => match cross_check_spec(ex, avs, w) {
            Err(e) => Err(e),
            Ok(fallible) => Ok((avs, fallible)),
        },
    }
}

/// If every variant before `i` is clean and variant `i` is rejected, the whole
/// walk yields variant `i`'s error.
proof fn lemma_variants_err(vs: Seq<VariantView>, w: nat, i: int, prefix: Seq<AnalyzedView>, e: ErrorView)
    requires
        0 <= i < vs.len(),
        variants_spec(vs.take(i), w) == Ok::<Seq<AnalyzedView>, ErrorView>(prefix),
        variant_spec(vs[i], w) == Err::<AnalyzedView, ErrorView>(e),
    ensures
        variants_spec(vs, w) == Err::<Seq<AnalyzedView>, ErrorView>(e),
    decreases vs.len(),
{
    if vs.len() == i + 1 {
        assert(vs.take(i) =~= vs.drop_last());
        assert(vs.last() == vs[i]);
    } else {
        assert(vs.drop_last().take(i) =~= vs.take(i));
        assert(vs.drop_last()[i] == vs[i]);
        lemma_variants_err(vs.drop_last(), w, i, prefix, e);
    }
}

/// A clean walk analyzes exactly the variants given, record by record.
pub proof fn lemma_variants_spec_ok(vs: Seq<VariantView>, w: nat, avs: Seq<AnalyzedView>)
    requires
        variants_spec(vs, w) == Ok::<Seq<AnalyzedView>, ErrorView>(avs),
    ensures
        avs.len() == vs.len(),
        forall|i: int|
            0 <= i < vs.len() ==> variant_spec(vs[i], w) == Ok::<AnalyzedView, ErrorView>(
                #[trigger] avs[i],
            ),
    decreases vs.len(),
{
    if vs.len() > 0 {
        match variants_spec(vs.drop_last(), w) {
            Ok(prefix) => {
                lemma_variants_spec_ok(vs.drop_last(), w, prefix);
                assert(forall|i: int| 0 <= i < vs.len() - 1 ==> vs.drop_last()[i] == vs[i]);
                assert(avs == prefix.push(avs.last()));
                assert(forall|i: int| 0 <= i < vs.len() - 1 ==> prefix[i] == avs[i]);
                assert(vs.last() == vs[vs.len() - 1]);
            },
            Err(_) => {
                assert(false);
            },
        }
    }
}

/// Every accepted discriminant value lies below two to the declared width.
pub proof fn lemma_variants_values_bounded(vs: Seq<VariantView>, w: nat, avs: Seq<AnalyzedView>)
    requires
        1 <= w <= 64,
        variants_spec(vs, w) == Ok::<Seq<AnalyzedView>, ErrorView>(avs),
    ensures
        forall|i: int| 0 <= i < avs.len() ==> (#[trigger] avs[i]).value < pow2(w),
{
    lemma_variants_spec_ok(vs, w, avs);
    assert forall|i: int| 0 <= i < avs.len() implies (#[trigger] avs[i]).value < pow2(w) by {
        lemma_pow2_within_64(w);
        assert(variant_spec(vs[i], w) == Ok::<AnalyzedView, ErrorView>(avs[i]));
    }
}

/// Pushing one record: the walk so far uses a marker exactly when either side
/// does.
pub proof fn lemma_uses_conditional_push(avs: Seq<AnalyzedView>, a: AnalyzedView)
    ensures
        uses_conditional(avs.push(a)) == (uses_conditional(avs) || a.cfg_attrs.len() > 0),
{
    if uses_conditional(avs) {
        let i = choose|i: int| 0 <= i < avs.len() && (#[trigger] avs[i]).cfg_attrs.len() > 0;
        assert(avs.push(a)[i] == avs[i]);
        assert(uses_conditional(avs.push(a)));
    }
    if a.cfg_attrs.len() > 0 {
        assert(avs.push(a)[avs.len() as int] == a);
        assert(uses_conditional(avs.push(a)));
    }
    if uses_conditional(avs.push(a)) {
        let i = choose|i: int|
            0 <= i < avs.push(a).len() && (#[trigger] avs.push(a)[i]).cfg_attrs.len() > 0;
        if i < avs.len() {
            assert(avs[i] == avs.push(a)[i]);
            assert(uses_conditional(avs));
        } else {
            assert(avs.push(a)[i] == a);
        }
    }
}

/// The attributes whose path is `cfg`, kept verbatim and in order.
pub fn collect_cfgs(attrs: &Vec<AttrInput>) -> (r: Vec<AttrInput>)
    ensures
        r.deep_view() == cfg_of(attrs.deep_view()),
{
    let ghost aws = attrs.deep_view();
    let mut r: Vec<AttrInput> = Vec::new();
    let mut i: usize = 0;
    while i < attrs.len()
        invariant
            aws == attrs.deep_view(),
            aws.len() == attrs@.len(),
            0 <= i <= attrs@.len(),
            r.deep_view() == cfg_of(aws.take(i as int)),
        decreases attrs@.len() - i,
    {
        let ghost prefix = r.deep_view();
        proof {
            assert(aws.take(i as int + 1).drop_last() =~= aws.take(i as int));
            assert(aws.take(i as int + 1).last() == aws[i as int]);
            assert(aws[i as int] == attrs@[i as int].deep_view());
        }
        let a = &attrs[i];
        if str_eq(a.path.as_str(), "cfg") {
            let copied = AttrInput { path: copy_str(a.path.as_str()), tokens: copy_str(a.tokens.as_str()) };
            proof {
                assert(copied.deep_view() == aws[i as int]);
            }
            r.push(copied);
            proof {
                assert(r.deep_view() =~= prefix.push(aws[i as int]));
            }
        }
        i += 1;
    }
    proof {
        assert(aws.take(aws.len() as int) =~= aws);
    }
    r
}

/// Walks the declaration's variants in order, analyzing each, and
/// cross-validates the result against the declared exhaustiveness. On success
/// yields the analyzed records and whether reconstruction is fallible.
pub fn analyze_variants(
    bit_count: u8,
    exhaustiveness: Exhaustiveness,
    vs: &Vec<VariantInput>,
) -> (r: Result<(Vec<AnalyzedVariant>, bool), BitenumError>)
    requires
        1 <= bit_count <= 64,
    ensures
        ({
            let s = analysis_spec(bit_count as nat, exhaustiveness, vs.deep_view());
            match r {
                Ok(p) => s == Ok::<(Seq<AnalyzedView>, bool), ErrorView>((p.0.deep_view(), p.1)),
                Err(e) => s == Err::<(Seq<AnalyzedView>, bool), ErrorView>(e.deep_view()),
            }
        }),
{
    let ghost vws = vs.deep_view();
    let ghost w = bit_count as nat;
    let bound = pow2_u128(bit_count);
    let mut out: Vec<AnalyzedVariant> = Vec::new();
    let mut uses_cond = false;
    let mut i: usize = 0;
    proof {
        assert(vws.take(0) =~= Seq::<VariantView>::empty());
        assert(out.deep_view() =~= Seq::<AnalyzedView>::empty());
    }
    while i < vs.len()
        invariant
            vws == vs.deep_view(),
            vws.len() == vs@.len(),
            0 <= i <= vs@.len(),
            1 <= bit_count <= 64,
            w == bit_count as nat,
            bound == pow2(w),
            variants_spec(vws.take(i as int), w) == Ok::<Seq<AnalyzedView>, ErrorView>(
                out.deep_view(),
            ),
            uses_cond == uses_conditional(out.deep_view()),
        decreases vs@.len() - i,
    {
        let ghost prefix = out.deep_view();
        proof {
            assert(vws.take(i as int + 1).drop_last() =~= vws.take(i as int));
            assert(vws.take(i as int + 1).last() == vws[i as int]);
            assert(vws[i as int] == vs@[i as int].deep_view());
        }
        let v = &vs[i];
        match &v.discriminant {
            None => {
                proof {
                    lemma_variants_err(
                        vws,
                        w,
                        i as int,
                        prefix,
                        ErrorView::MissingDiscriminant(v.name@),
                    );
                }
                return Err(BitenumError::MissingDiscriminant(copy_str(v.name.as_str())));
            },
            Some(text) => {
                match parse_discriminant(text.as_str()) {
                    None => {
                        proof {
                            lemma_variants_err(
                                vws,
                                w,
                                i as int,
                                prefix,
                                ErrorView::MalformedDiscriminant(text@),
                            );
                        }
                        return Err(BitenumError::MalformedDiscriminant(copy_str(text.as_str())));
                    },
                    Some(val) => {
                        if val >= bound {
                            proof {
                                lemma_variants_err(
                                    vws,
                                    w,
                                    i as int,
                                    prefix,
                                    ErrorView::DiscriminantTooLarge(v.name@),
                                );
                            }
                            return Err(BitenumError::DiscriminantTooLarge(copy_str(v.name.as_str())));
                        }
                        proof {
                            lemma_pow2_within_64(w);
                        }
                        let cfgs = collect_cfgs(&v.attrs);
                        let has_cfg = cfgs.len() > 0;
                        let av = AnalyzedVariant {
                            name: copy_str(v.name.as_str()),
                            expression: copy_str(text.as_str()),
                            value: val as u64,
                            cfg_attrs: cfgs,
                        };
                        proof {
                            assert(variant_spec(vws[i as int], w) == Ok::<AnalyzedView, ErrorView>(
                                av.deep_view(),
                            ));
                            lemma_uses_conditional_push(prefix, av.deep_view());
                        }
                        out.push(av);
                        proof {
                            assert(out.deep_view() =~= prefix.push(av.deep_view()));
                        }
                        uses_cond = uses_cond || has_cfg;
                    },
                }
            },
        }
        i += 1;
    }
    proof {
        assert(vws.take(vws.len() as int) =~= vws);
    }
    let is_conditional = exhaustiveness == Exhaustiveness::Conditional;
    if uses_cond && !is_conditional {
        return Err(BitenumError::ConditionalNotMarked);
    }
    if !uses_cond && is_conditional {
        return Err(BitenumError::ConditionalNotUsed);
    }
    let count = out.len() as u128;
    if exhaustiveness == Exhaustiveness::True && count != bound {
        return Err(BitenumError::MissingVariants);
    }
    if exhaustiveness == Exhaustiveness::False && count >= bound {
        return Err(BitenumError::NotMarkedExhaustive);
    }
    Ok((out, exhaustiveness != Exhaustiveness::True))
}

} // verus!
