//! Capability flags that a device advertises and a kernel requires.

use vstd::prelude::*;

verus! {

/// One optional shader capability.
#[derive(Clone, Copy, Debug, PartialEq, Eq, Structural)]
pub enum Feature {
    ShaderInt8,
    ShaderInt16,
    ShaderInt64,
    ShaderFloat16,
    ShaderFloat64,
}

/// A set of capabilities. Its view is the mathematical set of the flags that are on.
#[derive(Clone, Copy, Debug, PartialEq, Eq, Structural)]
pub struct Features {
    shader_int8: bool,
    shader_int16: bool,
    shader_int64: bool,
    shader_float16: bool,
    shader_float64: bool,
}

impl View for Features {
    type V = Set<Feature>;

    closed spec fn view(&self) -> Set<Feature> {
        Set::new(
            |f: Feature|
                match f {
                    Feature::ShaderInt8 => self.shader_int8,
                    Feature::ShaderInt16 => self.shader_int16,
                    Feature::ShaderInt64 => self.shader_int64,
                    Feature::ShaderFloat16 => self.shader_float16,
                    Feature::ShaderFloat64 => self.shader_float64,
                },
        )
    }
}

/// The set `s` with `f` switched on or off.
pub open spec fn with_flag(s: Set<Feature>, f: Feature, on: bool) -> Set<Feature> {
    if on {
        s.insert(f)
    } else {
        s.remove(f)
    }
}

impl Features {
    /// The set with no capability.
    pub fn empty() -> (r: Self)
        ensures
            r@ == Set::<Feature>::empty(),
    {
        let r = Self {
            shader_int8: false,
            shader_int16: false,
            shader_int64: false,
            shader_float16: false,
            shader_float64: false,
        };
        assert(r@ =~= Set::<Feature>::empty());
        r
    }

    pub fn shader_int8(&self) -> (r: bool)
        ensures
            r == self@.contains(Feature::ShaderInt8),
    {
        self.shader_int8
    }

    pub fn with_shader_int8(self, shader_int8: bool) -> (r: Self)
        ensures
            r@ == with_flag(self@, Feature::ShaderInt8, shader_int8),
    {
        let r = Self { shader_int8, ..self };
        assert(r@ =~= with_flag(self@, Feature::ShaderInt8, shader_int8));
        r
    }

    pub fn shader_int16(&self) -> (r: bool)
        ensures
            r == self@.contains(Feature::ShaderInt16),
    {
        self.shader_int16
    }

    pub fn with_shader_int16(self, shader_int16: bool) -> (r: Self)
        ensures
            r@ == with_flag(self@, Feature::ShaderInt16, shader_int16),
    {
        let r = Self { shader_int16, ..self };
        assert(r@ =~= with_flag(self@, Feature::ShaderInt16, shader_int16));
        r
    }

    pub fn shader_int64(&self) -> (r: bool)
        ensures
            r == self@.contains(Feature::ShaderInt64),
    {
        self.shader_int64
    }

    pub fn with_shader_int64(self, shader_int64: bool) -> (r: Self)
        ensures
            r@ == with_flag(self@, Feature::ShaderInt64, shader_int64),
    {
        let r = Self { shader_int64, ..self };
        assert(r@ =~= with_flag(self@, Feature::ShaderInt64, shader_int64));
        r
    }

    pub fn shader_float16(&self) -> (r: bool)
        ensures
            r == self@.contains(Feature::ShaderFloat16),
    {
        self.shader_float16
    }

    pub fn with_shader_float16(self, shader_float16: bool) -> (r: Self)
        ensures
            r@ == with_flag(self@, Feature::ShaderFloat16, shader_float16),
    {
        let r = Self { shader_float16, ..self };
        assert(r@ =~= with_flag(self@, Feature::ShaderFloat16, shader_float16));
        r
    }

    pub fn shader_float64(&self) -> (r: bool)
        ensures
            r == self@.contains(Feature::ShaderFloat64),
    {
        self.shader_float64
    }

    pub fn with_shader_float64(self, shader_float64: bool) -> (r: Self)
        ensures
            r@ == with_flag(self@, Feature::ShaderFloat64, shader_float64),
    {
        let r = Self { shader_float64, ..self };
        assert(r@ =~= with_flag(self@, Feature::ShaderFloat64, shader_float64));
        r
    }

    /// Whether every capability of `other` is also one of `self`.
    pub closed spec fn spec_contains(self, other: Features) -> bool {
        other@.subset_of(self@)
    }

    /// The capabilities that `self` or `other` has.
    pub closed spec fn spec_union(self, other: Features) -> Features {
        Features {
            shader_int8: self.shader_int8 || other.shader_int8,
            shader_int16: self.shader_int16 || other.shader_int16,
            shader_int64: self.shader_int64 || other.shader_int64,
            shader_float16: self.shader_float16 || other.shader_float16,
            shader_float64: self.shader_float64 || other.shader_float64,
        }
    }

    /// Whether every capability of `other` is also one of `self`.
    pub fn contains(&self, other: &Features) -> (r: bool)
        ensures
            r == self.spec_contains(*other),
            r == other@.subset_of(self@),
    {
        let r = (self.shader_int8 || !other.shader_int8) && (self.shader_int16
            || !other.shader_int16) && (self.shader_int64 || !other.shader_int64) && (
        self.shader_float16 || !other.shader_float16) && (self.shader_float64
            || !other.shader_float64);
        proof {
            if !r {
                let f = if !(self.shader_int8 || !other.shader_int8) {
                    Feature::ShaderInt8
                } else if !(self.shader_int16 || !other.shader_int16) {
                    Feature::ShaderInt16
                } else if !(self.shader_int64 || !other.shader_int64) {
                    Feature::ShaderInt64
                } else if !(self.shader_float16 || !other.shader_float16) {
                    Feature::ShaderFloat16
                } else {
                    Feature::ShaderFloat64
                };
                assert(other@.contains(f) && !self@.contains(f));
            }
        }
        r
    }

    /// The capabilities that `self` or `other` has.
    pub fn union(self, other: &Features) -> (r: Self)
        ensures
            r == self.spec_union(*other),
            r@ == self@.union(other@),
    {
        let r = Self {
            shader_int8: self.shader_int8 || other.shader_int8,
            shader_int16: self.shader_int16 || other.shader_int16,
            shader_int64: self.shader_int64 || other.shader_int64,
            shader_float16: self.shader_float16 || other.shader_float16,
            shader_float64: self.shader_float64 || other.shader_float64,
        };
        assert(r@ =~= self@.union(other@));
        r
    }

    /// The capabilities that both `self` and `other` have.
    pub fn intersection(self, other: &Features) -> (r: Self)
        ensures
            r@ == self@.intersect(other@),
    {
        let r = Self {
            shader_int8: self.shader_int8 && other.shader_int8,
            shader_int16: self.shader_int16 && other.shader_int16,
            shader_int64: self.shader_int64 && other.shader_int64,
            shader_float16: self.shader_float16 && other.shader_float16,
            shader_float64: self.shader_float64 && other.shader_float64,
        };
        assert(r@ =~= self@.intersect(other@));
        r
    }

    /// One set contains another exactly when it has every flag that the
    /// other has.
    pub proof fn lemma_contains(a: Features, b: Features)
        ensures
            a.spec_contains(b) <==> forall|f: Feature| b@.contains(f) ==> a@.contains(f),
    {
    }

    /// The union has the flags of either set.
    pub proof fn lemma_union(a: Features, b: Features)
        ensures
            a.spec_union(b)@ == a@.union(b@),
    {
        assert(a.spec_union(b)@ =~= a@.union(b@));
    }

    /// The union does not depend on the order of the two sets.
    pub proof fn lemma_union_commutative(a: Features, b: Features)
        ensures
            a.spec_union(b) == b.spec_union(a),
    {
    }

    /// The union of a set with itself is the set.
    pub proof fn lemma_union_idempotent(a: Features)
        ensures
            a.spec_union(a) == a,
    {
    }

    /// Two capability sets with the same flags are the same value.
    pub proof fn view_injective(a: Features, b: Features)
        requires
            a@ == b@,
        ensures
            a == b,
    {
        assert(a.shader_int8 == a@.contains(Feature::ShaderInt8));
        assert(b.shader_int8 == b@.contains(Feature::ShaderInt8));
        assert(a.shader_int16 == a@.contains(Feature::ShaderInt16));
        assert(b.shader_int16 == b@.contains(Feature::ShaderInt16));
        assert(a.shader_int64 == a@.contains(Feature::ShaderInt64));
        assert(b.shader_int64 == b@.contains(Feature::ShaderInt64));
        assert(a.shader_float16 == a@.contains(Feature::ShaderFloat16));
        assert(b.shader_float16 == b@.contains(Feature::ShaderFloat16));
        assert(a.shader_float64 == a@.contains(Feature::ShaderFloat64));
        assert(b.shader_float64 == b@.contains(Feature::ShaderFloat64));
    }
}

} // verus!
