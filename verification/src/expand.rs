//! The transformer itself: from the configuration tokens and the declaration
//! to the replacement declaration, described as a value; and the semantics of
//! the two operations the replacement carries, extracting the packed integer
//! and reconstructing an instance from one.

use vstd::arithmetic::power2::pow2;
use vstd::prelude::*;

use crate::args::{parse_args, parse_args_spec};
use crate::model::{ArgToken, ArgTokenView, BitenumError, ErrorView, VariantInput, VariantView};
use crate::text::{copy_str, copy_strings};
use crate::variants::{
    analysis_spec, analyze_variants, lemma_variants_values_bounded, AnalyzedVariant, AnalyzedView,
};
use crate::width::{native_width, resolve_width, storage_of};

verus! {

/// The declaration handed to the transformer: name, visibility and attributes
/// kept verbatim for re-emission, and the variants the analyzer reads.
pub struct EnumInput {
    pub name: String,
    pub visibility: String,
    pub attributes: Vec<String>,
    pub variants: Vec<VariantInput>,
}

/// Mathematical image of an [`EnumInput`].
pub struct EnumInputView {
    pub name: Seq<char>,
    pub visibility: Seq<char>,
    pub attributes: Seq<Seq<char>>,
    pub variants: Seq<VariantView>,
}

impl View for EnumInput {
    type V = EnumInputView;

    open spec fn view(&self) -> EnumInputView {
        EnumInputView {
            name: self.name@,
            visibility: self.visibility@,
            attributes: self.attributes.deep_view(),
            variants: self.variants.deep_view(),
        }
    }
}

impl DeepView for EnumInput {
    type V = EnumInputView;

    open spec fn deep_view(&self) -> EnumInputView {
        self.view()
    }
}

/// The replacement declaration, described as a value: the re-declared type
/// (name, visibility, attributes kept), the storage strategy, whether
/// reconstruction is fallible, and the analyzed variants that the two
/// operations dispatch over.
#[derive(Debug)]
pub struct Expansion {
    pub name: String,
    pub visibility: String,
    pub attributes: Vec<String>,
    pub bit_count: u8,
    pub storage_bits: u8,
    pub needs_bounding: bool,
    pub fallible: bool,
    pub variants: Vec<AnalyzedVariant>,
}

/// Mathematical image of an [`Expansion`].
pub struct ExpansionView {
    pub name: Seq<char>,
    pub visibility: Seq<char>,
    pub attributes: Seq<Seq<char>>,
    pub bit_count: u8,
    pub storage_bits: u8,
    pub needs_bounding: bool,
    pub fallible: bool,
    pub variants: Seq<AnalyzedView>,
}

impl View for Expansion {
    type V = ExpansionView;

    open spec fn view(&self) -> ExpansionView {
        ExpansionView {
            name: self.name@,
            visibility: self.visibility@,
            attributes: self.attributes.deep_view(),
            bit_count: self.bit_count,
            storage_bits: self.storage_bits,
            needs_bounding: self.needs_bounding,
            fallible: self.fallible,
            variants: self.variants.deep_view(),
        }
    }
}

impl DeepView for Expansion {
    type V = ExpansionView;

    open spec fn deep_view(&self) -> ExpansionView {
        self.view()
    }
}

/// What the whole pipeline yields: configuration parsing, then width
/// resolution, then variant analysis and cross-validation, then the
/// replacement declaration.
pub open spec fn bitenum_spec(args: Seq<ArgTokenView>, input: EnumInputView) -> Result<
    ExpansionView,
    ErrorView,
> {
    match parse_args_spec(args) {
        Err(e) => Err(e),
        Ok(cfg) => match analysis_spec(cfg.bit_width as nat, cfg.exhaustiveness, input.variants) {
            Err(e) => Err(e),
            Ok(p) => Ok(
                ExpansionView {
                    name: input.name,
                    visibility: input.visibility,
                    attributes: input.attributes,
                    bit_count: cfg.bit_width,
                    storage_bits: storage_of(cfg.bit_width as nat) as u8,
                    needs_bounding: !native_width(cfg.bit_width as nat),
                    fallible: p.1,
                    variants: p.0,
                },
            ),
        },
    }
}

impl Expansion {
    /// What the analysis guarantees of every expansion it produces.
    pub open spec fn wf(self) -> bool {
        &&& 1 <= self.bit_count <= 64
        &&& self.storage_bits == storage_of(self.bit_count as nat)
        &&& self.needs_bounding == !native_width(self.bit_count as nat)
        &&& forall|i: int|
            0 <= i < self.variants@.len() ==> (#[trigger] self.variants@[i]).value < pow2(
                self.bit_count as nat,
            )
    }
}

/// Turns the configuration tokens and the declaration into the replacement
/// declaration, or the first error of the pipeline.
pub fn bitenum(args: &Vec<ArgToken>, input: &EnumInput) -> (r: Result<Expansion, BitenumError>)
    ensures
        match r {
            Ok(expansion) => bitenum_spec(args.deep_view(), input.deep_view()) == Ok::<
                ExpansionView,
                ErrorView,
            >(expansion.deep_view()) && expansion.wf(),
            Err(e) => bitenum_spec(args.deep_view(), input.deep_view()) == Err::<
                ExpansionView,
                ErrorView,
            >(e.deep_view()),
        },
{
    let cfg = match parse_args(args) {
        Ok(c) => c,
        Err(e) => {
            return Err(e);
        },
    };
    let profile = resolve_width(cfg.bit_width);
    let analyzed = match analyze_variants(cfg.bit_width, cfg.exhaustiveness, &input.variants) {
        Ok(p) => p,
        Err(e) => {
            return Err(e);
        },
    };
    let (variants, fallible) = analyzed;
    let result = Expansion {
        name: copy_str(input.name.as_str()),
        visibility: copy_str(input.visibility.as_str()),
        attributes: copy_strings(&input.attributes),
        bit_count: cfg.bit_width,
        storage_bits: profile.storage_bits,
        needs_bounding: profile.needs_bounding,
        fallible,
        variants,
    };
    proof {
        lemma_variants_values_bounded(
            input.deep_view().variants,
            cfg.bit_width as nat,
            result.variants.deep_view(),
        );
        assert(forall|i: int|
            0 <= i < result.variants@.len() ==> (#[trigger] result.variants@[i]).value
                == result.variants.deep_view()[i].value);
    }
    Ok(result)
}

/// Reconstruction's dense match over the discriminants in declaration order:
/// the first arm whose value matches wins; the default arm hands the
/// unmatched integer back.
pub open spec fn lookup_spec(avs: Seq<AnalyzedView>, raw: u64) -> Result<int, u64>
    decreases avs.len(),
{
    if avs.len() == 0 {
        Err(raw)
    } else if avs[0].value == raw {
        Ok(0)
    } else {
        match lookup_spec(avs.skip(1), raw) {
            Ok(i) => Ok(i + 1),
            Err(v) => Err(v),
        }
    }
}

/// When index `i` holds the first matching value, the match lands on arm `i`.
pub proof fn lemma_lookup_found(avs: Seq<AnalyzedView>, raw: u64, i: int)
    requires
        0 <= i < avs.len(),
        avs[i].value == raw,
        forall|j: int| 0 <= j < i ==> (#[trigger] avs[j]).value != raw,
    ensures
        lookup_spec(avs, raw) == Ok::<int, u64>(i),
    decreases i,
{
    if i == 0 {
    } else {
        assert(avs[0].value != raw);
        assert(avs.skip(1)[i - 1] == avs[i]);
        assert(forall|j: int| 0 <= j < i - 1 ==> #[trigger] avs.skip(1)[j] == avs[j + 1]);
        lemma_lookup_found(avs.skip(1), raw, i - 1);
    }
}

/// When no value matches, the match lands on the default arm, which hands the
/// integer back unchanged.
pub proof fn lemma_lookup_missing(avs: Seq<AnalyzedView>, raw: u64)
    requires
        forall|j: int| 0 <= j < avs.len() ==> (#[trigger] avs[j]).value != raw,
    ensures
        lookup_spec(avs, raw) == Err::<int, u64>(raw),
    decreases avs.len(),
{
    if avs.len() > 0 {
        assert(forall|j: int| 0 <= j < avs.len() - 1 ==> #[trigger] avs.skip(1)[j] == avs[j + 1]);
        lemma_lookup_missing(avs.skip(1), raw);
    }
}

impl Expansion {
    /// The packed integer of variant `variant`: the emitted accessor casts
    /// the instance to its storage integer, whose value is the discriminant
    /// the analysis recorded. No validation is needed: every discriminant was
    /// already range-checked.
    pub fn raw_value(&self, variant: usize) -> (r: u64)
        requires
            variant < self.variants@.len(),
        ensures
            r == self.variants@[variant as int].value,
            self.wf() ==> r < pow2(self.bit_count as nat),
    {
        self.variants[variant].value
    }

    /// Reconstruction from a packed integer: the emitted operation matches
    /// the integer against every collected discriminant in declaration order;
    /// success carries the matching variant's index, failure carries the
    /// original unmatched integer.
    pub fn new_with_raw_value(&self, raw: u64) -> (r: Result<usize, u64>)
        ensures
            match r {
                Ok(i) => {
                    &&& lookup_spec(self.variants.deep_view(), raw) == Ok::<int, u64>(i as int)
                    &&& i < self.variants@.len()
                    &&& self.variants@[i as int].value == raw
                    &&& forall|j: int| 0 <= j < i ==> (#[trigger] self.variants@[j]).value != raw
                },
                Err(v) => {
                    &&& lookup_spec(self.variants.deep_view(), raw) == Err::<int, u64>(v)
                    &&& v == raw
                    &&& forall|j: int|
                        0 <= j < self.variants@.len() ==> (#[trigger] self.variants@[j]).value
                            != raw
                },
            },
    {
        let mut i: usize = 0;
        while i < self.variants.len()
            invariant
                0 <= i <= self.variants@.len(),
                forall|j: int| 0 <= j < i ==> (#[trigger] self.variants@[j]).value != raw,
            decreases self.variants@.len() - i,
        {
            if self.variants[i].value == raw {
                proof {
                    assert(forall|j: int|
                        0 <= j < self.variants@.len() ==> (#[trigger] self.variants.deep_view()[j]).value
                            == self.variants@[j].value);
                    lemma_lookup_found(self.variants.deep_view(), raw, i as int);
                }
                return Ok(i);
            }
            i += 1;
        }
        proof {
            assert(forall|j: int|
                0 <= j < self.variants@.len() ==> (#[trigger] self.variants.deep_view()[j]).value
                    == self.variants@[j].value);
            lemma_lookup_missing(self.variants.deep_view(), raw);
        }
        Err(raw)
    }
}

} // verus!
