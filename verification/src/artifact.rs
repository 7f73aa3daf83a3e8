//! The kernel artifact: bytecode together with the schema of its
//! specialization constants, buffer bindings and push constants.

use vstd::prelude::*;
use crate::error::Error;
use crate::features::{Feature, Features};
use crate::scalar::ScalarType;

verus! {

/// A specialization constant of the bytecode.
#[derive(Clone, Debug)]
pub struct SpecDesc {
    pub name: String,
    pub scalar_type: ScalarType,
    /// The workgroup dimension that the constant also sets, if any.
    pub thread_dim: Option<usize>,
}

/// A buffer binding.
#[derive(Clone, Debug)]
pub struct SliceDesc {
    pub name: String,
    pub scalar_type: ScalarType,
    pub mutable: bool,
    /// Whether the length of the bound slice implies the global thread count.
    pub item: bool,
}

/// A push constant.
#[derive(Clone, Debug)]
pub struct PushDesc {
    pub name: String,
    pub scalar_type: ScalarType,
}

pub struct SpecDescView {
    pub name: Seq<char>,
    pub scalar_type: ScalarType,
    pub thread_dim: Option<usize>,
}

pub struct SliceDescView {
    pub name: Seq<char>,
    pub scalar_type: ScalarType,
    pub mutable: bool,
    pub item: bool,
}

pub struct PushDescView {
    pub name: Seq<char>,
    pub scalar_type: ScalarType,
}

impl View for SpecDesc {
    type V = SpecDescView;

    open spec fn view(&self) -> SpecDescView {
        SpecDescView {
            name: self.name@,
            scalar_type: self.scalar_type,
            thread_dim: self.thread_dim,
        }
    }
}

impl View for SliceDesc {
    type V = SliceDescView;

    open spec fn view(&self) -> SliceDescView {
        SliceDescView {
            name: self.name@,
            scalar_type: self.scalar_type,
            mutable: self.mutable,
            item: self.item,
        }
    }
}

impl View for PushDesc {
    type V = PushDescView;

    open spec fn view(&self) -> PushDescView {
        PushDescView { name: self.name@, scalar_type: self.scalar_type }
    }
}

impl SpecDesc {
    pub fn clone(&self) -> (r: Self)
        ensures
            r@ == self@,
    {
        SpecDesc {
            name: self.name.clone(),
            scalar_type: self.scalar_type,
            thread_dim: self.thread_dim,
        }
    }
}

impl SliceDesc {
    pub fn clone(&self) -> (r: Self)
        ensures
            r@ == self@,
    {
        SliceDesc {
            name: self.name.clone(),
            scalar_type: self.scalar_type,
            mutable: self.mutable,
            item: self.item,
        }
    }
}

impl PushDesc {
    pub fn clone(&self) -> (r: Self)
        ensures
            r@ == self@,
    {
        PushDesc { name: self.name.clone(), scalar_type: self.scalar_type }
    }
}

/// The mathematical content of a kernel artifact.
pub struct KernelDescView {
    pub name: Seq<char>,
    pub spirv: Seq<u32>,
    pub features: Set<Feature>,
    pub threads: Seq<u32>,
    pub safe: bool,
    pub spec_descs: Seq<SpecDescView>,
    pub slice_descs: Seq<SliceDescView>,
    pub push_descs: Seq<PushDescView>,
}

/// The least multiple of four that is at least `n`.
pub open spec fn round_up_4(n: nat) -> nat {
    ((n + 3) / 4 * 4) as nat
}

/// The bytes that the first `n` push constants take, without padding.
pub open spec fn push_size(descs: Seq<PushDescView>, n: nat) -> nat
    decreases n,
{
    if n == 0 || n > descs.len() {
        0
    } else {
        push_size(descs, (n - 1) as nat) + descs[n - 1].scalar_type.spec_size()
    }
}

/// The size of the push-constant range: the user constants, rounded up to a
/// multiple of four, then an (offset, length) pair of 32-bit words for each binding.
pub open spec fn push_range(push_descs: Seq<PushDescView>, slices: nat) -> nat {
    round_up_4(push_size(push_descs, push_descs.len())) + 8 * slices
}

/// A constant that sets a workgroup dimension names one of the `dims`
/// dimensions and is a `u32`.
pub open spec fn thread_dim_ok(desc: SpecDescView, dims: nat) -> bool {
    match desc.thread_dim {
        Some(d) => d < dims && desc.scalar_type == ScalarType::U32,
        None => true,
    }
}

impl KernelDescView {
    /// What every artifact satisfies: one to three workgroup dimensions, none
    /// of them zero; a constant that sets a dimension names an existing one
    /// and is a `u32`; the push-constant range fits in 32 bits.
    pub open spec fn wf(self) -> bool {
        &&& 1 <= self.threads.len() <= 3
        &&& forall|i: int| 0 <= i < self.threads.len() ==> self.threads[i] != 0
        &&& forall|i: int|
            0 <= i < self.spec_descs.len() ==> thread_dim_ok(
                #[trigger] self.spec_descs[i],
                self.threads.len(),
            )
        &&& push_range(self.push_descs, self.slice_descs.len()) <= u32::MAX
    }
}

pub proof fn lemma_push_size_step(descs: Seq<PushDescView>, n: nat)
    requires
        n < descs.len(),
    ensures
        push_size(descs, n + 1) == push_size(descs, n) + descs[n as int].scalar_type.spec_size(),
        push_size(descs, n) <= push_size(descs, n + 1) <= push_size(descs, n) + 8,
{
}

pub proof fn lemma_push_size_monotone(descs: Seq<PushDescView>, m: nat, n: nat)
    requires
        m <= n <= descs.len(),
    ensures
        push_size(descs, m) <= push_size(descs, n),
    decreases n - m,
{
    if m < n {
        lemma_push_size_step(descs, (n - 1) as nat);
        lemma_push_size_monotone(descs, m, (n - 1) as nat);
    }
}

/// A kernel artifact.
#[derive(Clone, Debug)]
pub struct KernelDesc {
    pub name: String,
    pub spirv: Vec<u32>,
    pub features: Features,
    pub threads: Vec<u32>,
    pub safe: bool,
    pub spec_descs: Vec<SpecDesc>,
    pub slice_descs: Vec<SliceDesc>,
    pub push_descs: Vec<PushDesc>,
}

impl View for KernelDesc {
    type V = KernelDescView;

    open spec fn view(&self) -> KernelDescView {
        KernelDescView {
            name: self.name@,
            spirv: self.spirv@,
            features: self.features@,
            threads: self.threads@,
            safe: self.safe,
            spec_descs: self.spec_descs@.map_values(|d: SpecDesc| d@),
            slice_descs: self.slice_descs@.map_values(|d: SliceDesc| d@),
            push_descs: self.push_descs@.map_values(|d: PushDesc| d@),
        }
    }
}

pub fn clone_words(v: &Vec<u32>) -> (r: Vec<u32>)
    ensures
        r@ == v@,
{
    let mut r: Vec<u32> = Vec::new();
    let mut i: usize = 0;
    while i < v.len()
        invariant
            i <= v.len(),
            r@ == v@.take(i as int),
        decreases v.len() - i,
    {
        r.push(v[i]);
        i = i + 1;
        assert(r@ =~= v@.take(i as int));
    }
    assert(v@.take(v.len() as int) =~= v@);
    r
}

fn clone_spec_descs(v: &Vec<SpecDesc>) -> (r: Vec<SpecDesc>)
    ensures
        r@.map_values(|d: SpecDesc| d@) == v@.map_values(|d: SpecDesc| d@),
{
    let mut r: Vec<SpecDesc> = Vec::new();
    let mut i: usize = 0;
    while i < v.len()
        invariant
            i <= v.len(),
            r@.len() == i,
            forall|k: int| 0 <= k < i ==> r@[k]@ == v@[k]@,
        decreases v.len() - i,
    {
        r.push(v[i].clone());
        i = i + 1;
    }
    assert(r@.map_values(|d: SpecDesc| d@) =~= v@.map_values(|d: SpecDesc| d@));
    r
}

fn clone_slice_descs(v: &Vec<SliceDesc>) -> (r: Vec<SliceDesc>)
    ensures
        r@.map_values(|d: SliceDesc| d@) == v@.map_values(|d: SliceDesc| d@),
{
    let mut r: Vec<SliceDesc> = Vec::new();
    let mut i: usize = 0;
    while i < v.len()
        invariant
            i <= v.len(),
            r@.len() == i,
            forall|k: int| 0 <= k < i ==> r@[k]@ == v@[k]@,
        decreases v.len() - i,
    {
        r.push(v[i].clone());
        i = i + 1;
    }
    assert(r@.map_values(|d: SliceDesc| d@) =~= v@.map_values(|d: SliceDesc| d@));
    r
}

fn clone_push_descs(v: &Vec<PushDesc>) -> (r: Vec<PushDesc>)
    ensures
        r@.map_values(|d: PushDesc| d@) == v@.map_values(|d: PushDesc| d@),
{
    let mut r: Vec<PushDesc> = Vec::new();
    let mut i: usize = 0;
    while i < v.len()
        invariant
            i <= v.len(),
            r@.len() == i,
            forall|k: int| 0 <= k < i ==> r@[k]@ == v@[k]@,
        decreases v.len() - i,
    {
        r.push(v[i].clone());
        i = i + 1;
    }
    assert(r@.map_values(|d: PushDesc| d@) =~= v@.map_values(|d: PushDesc| d@));
    r
}

/// The push-constant range of the given schema, if it fits in 32 bits.
pub fn checked_push_consts_range(push_descs: &Vec<PushDesc>, slices: usize) -> (r: Option<u32>)
    ensures
        match r {
            Some(n) => n == push_range(push_descs@.map_values(|d: PushDesc| d@), slices as nat),
            None => push_range(push_descs@.map_values(|d: PushDesc| d@), slices as nat)
                > u32::MAX,
        },
{
    let ghost descs = push_descs@.map_values(|d: PushDesc| d@);
    let limit: u64 = 0xffff_ffff;
    let mut size: u64 = 0;
    let mut i: usize = 0;
    while i < push_descs.len()
        invariant
            i <= push_descs.len(),
            descs == push_descs@.map_values(|d: PushDesc| d@),
            size == push_size(descs, i as nat),
            size <= limit,
            limit == 0xffff_ffff,
        decreases push_descs.len() - i,
    {
        proof {
            lemma_push_size_step(descs, i as nat);
        }
        size = size + push_descs[i].scalar_type.size() as u64;
        i = i + 1;
        if size > limit {
            proof {
                lemma_push_size_monotone(descs, i as nat, descs.len());
            }
            return None;
        }
    }
    let padded: u64 = (size + 3) / 4 * 4;
    if slices as u64 > limit {
        return None;
    }
    let total: u64 = padded + 8 * (slices as u64);
    if total > limit {
        None
    } else {
        Some(total as u32)
    }
}

impl KernelDesc {
    pub open spec fn wf(&self) -> bool {
        self@.wf()
    }

    /// An artifact of the given parts, or `ArtifactDecode` if they do not
    /// make a well-formed one.
    pub fn new(
        name: String,
        spirv: Vec<u32>,
        features: Features,
        threads: Vec<u32>,
        safe: bool,
        spec_descs: Vec<SpecDesc>,
        slice_descs: Vec<SliceDesc>,
        push_descs: Vec<PushDesc>,
    ) -> (r: Result<KernelDesc, Error>)
        ensures
            ({
                let desc = KernelDesc {
                    name,
                    spirv,
                    features,
                    threads,
                    safe,
                    spec_descs,
                    slice_descs,
                    push_descs,
                };
                match r {
                    Ok(d) => desc.wf() && d == desc,
                    Err(e) => !desc.wf() && e == Error::ArtifactDecode,
                }
            }),
    {
        let desc = KernelDesc {
            name,
            spirv,
            features,
            threads,
            safe,
            spec_descs,
            slice_descs,
            push_descs,
        };
        if desc.check() {
            Ok(desc)
        } else {
            Err(Error::ArtifactDecode)
        }
    }

    /// Whether the parts make a well-formed artifact.
    pub fn check(&self) -> (r: bool)
        ensures
            r == self.wf(),
    {
        let n = self.threads.len();
        if n < 1 || n > 3 {
            return false;
        }
        let mut i: usize = 0;
        while i < n
            invariant
                i <= n,
                n == self.threads@.len(),
                forall|k: int| 0 <= k < i ==> self.threads@[k] != 0,
            decreases n - i,
        {
            if self.threads[i] == 0 {
                return false;
            }
            i = i + 1;
        }
        let mut j: usize = 0;
        while j < self.spec_descs.len()
            invariant
                j <= self.spec_descs.len(),
                n == self.threads@.len(),
                forall|k: int|
                    0 <= k < j ==> thread_dim_ok(#[trigger] self@.spec_descs[k], n as nat),
            decreases self.spec_descs.len() - j,
        {
            let d = &self.spec_descs[j];
            match d.thread_dim {
                Some(dim) => {
                    if dim >= n || d.scalar_type != ScalarType::U32 {
                        assert(self@.spec_descs[j as int].thread_dim == Some(dim));
                        return false;
                    }
                },
                None => {},
            }
            j = j + 1;
        }
        checked_push_consts_range(&self.push_descs, self.slice_descs.len()).is_some()
    }

    /// The size in bytes of the push-constant range of the kernel's pipeline.
    pub fn push_consts_range(&self) -> (r: u32)
        requires
            self.wf(),
        ensures
            r == push_range(self@.push_descs, self@.slice_descs.len()),
    {
        match checked_push_consts_range(&self.push_descs, self.slice_descs.len()) {
            Some(n) => n,
            None => {
                proof {
                    assert(false);
                }
                0
            },
        }
    }

    pub fn clone(&self) -> (r: Self)
        ensures
            r@ == self@,
    {
        KernelDesc {
            name: self.name.clone(),
            spirv: clone_words(&self.spirv),
            features: self.features,
            threads: clone_words(&self.threads),
            safe: self.safe,
            spec_descs: clone_spec_descs(&self.spec_descs),
            slice_descs: clone_slice_descs(&self.slice_descs),
            push_descs: clone_push_descs(&self.push_descs),
        }
    }
}

} // verus!
