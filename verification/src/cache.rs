//! The pipeline cache of an engine: one pipeline for each kernel key, built
//! once.

use vstd::prelude::*;
use crate::artifact::{KernelDesc, KernelDescView};
use crate::error::Error;

verus! {

/// What identifies a built kernel: the artifact it came from and the bytes
/// of the values it was specialized with.
#[derive(Debug)]
pub struct KernelKey {
    pub id: usize,
    pub spec_bytes: Vec<u8>,
}

pub struct KernelKeyView {
    pub id: usize,
    pub spec_bytes: Seq<u8>,
}

impl View for KernelKey {
    type V = KernelKeyView;

    open spec fn view(&self) -> KernelKeyView {
        KernelKeyView { id: self.id, spec_bytes: self.spec_bytes@ }
    }
}

impl KernelKey {
    /// Whether the two keys have the same artifact and the same bytes.
    pub fn same(&self, other: &KernelKey) -> (r: bool)
        ensures
            r == (self@ == other@),
    {
        if self.id != other.id || self.spec_bytes.len() != other.spec_bytes.len() {
            return false;
        }
        let mut i: usize = 0;
        while i < self.spec_bytes.len()
            invariant
                i <= self.spec_bytes@.len(),
                self.spec_bytes@.len() == other.spec_bytes@.len(),
                forall|k: int| 0 <= k < i ==> self.spec_bytes@[k] == other.spec_bytes@[k],
            decreases self.spec_bytes@.len() - i,
        {
            if self.spec_bytes[i] != other.spec_bytes[i] {
                return false;
            }
            i = i + 1;
        }
        assert(self.spec_bytes@ =~= other.spec_bytes@);
        true
    }
}

/// A built kernel: the artifact that was compiled and the size of the
/// push-constant range of its layout.
#[derive(Debug)]
pub struct Pipeline {
    pub key: KernelKey,
    pub desc: KernelDesc,
    pub push_consts_range: u32,
}

pub struct PipelineView {
    pub key: KernelKeyView,
    pub desc: KernelDescView,
    pub push_consts_range: u32,
}

impl View for Pipeline {
    type V = PipelineView;

    open spec fn view(&self) -> PipelineView {
        PipelineView {
            key: self.key@,
            desc: self.desc@,
            push_consts_range: self.push_consts_range,
        }
    }
}

impl Pipeline {
    pub open spec fn wf(&self) -> bool {
        &&& self.desc.wf()
        &&& self.push_consts_range == crate::artifact::push_range(
            self.desc@.push_descs,
            self.desc@.slice_descs.len(),
        )
    }
}

/// Whether one of the pipelines has the key.
pub open spec fn has_key(pipelines: Seq<PipelineView>, key: KernelKeyView) -> bool {
    exists|i: int| 0 <= i < pipelines.len() && (#[trigger] pipelines[i]).key == key
}

/// Whether no key occurs twice.
pub open spec fn distinct_keys(pipelines: Seq<PipelineView>) -> bool {
    forall|i: int, j: int|
        0 <= i < j < pipelines.len() ==> (#[trigger] pipelines[i]).key != (#[trigger] pipelines[j]).key
}

#[derive(Debug)]
pub struct KernelCache {
    entries: Vec<Pipeline>,
}

impl View for KernelCache {
    type V = Seq<PipelineView>;

    closed spec fn view(&self) -> Seq<PipelineView> {
        self.entries@.map_values(|p: Pipeline| p@)
    }
}

impl KernelCache {
    /// The pipelines, in the order in which they were built.
    pub closed spec fn pipelines(&self) -> Seq<Pipeline> {
        self.entries@
    }

    /// No key occurs twice, and every pipeline is well formed.
    pub open spec fn wf(&self) -> bool {
        &&& self@ == self.pipelines().map_values(|p: Pipeline| p@)
        &&& distinct_keys(self@)
        &&& forall|i: int| 0 <= i < self.pipelines().len() ==> (#[trigger] self.pipelines()[i]).wf()
    }

    pub fn new() -> (r: Self)
        ensures
            r.wf(),
            r@.len() == 0,
    {
        let r = KernelCache { entries: Vec::new() };
        assert(r@ =~= Seq::<PipelineView>::empty());
        r
    }

    /// How many pipelines were built: the number of misses so far.
    pub fn misses(&self) -> (r: usize)
        ensures
            r == self@.len(),
    {
        self.entries.len()
    }

    /// The position of the pipeline with the key.
    pub fn position(&self, key: &KernelKey) -> (r: Option<usize>)
        ensures
            match r {
                Some(i) => i < self@.len() && self@[i as int].key == key@,
                None => !has_key(self@, key@),
            },
    {
        let mut i: usize = 0;
        while i < self.entries.len()
            invariant
                i <= self.entries@.len(),
                forall|k: int| 0 <= k < i ==> (#[trigger] self@[k]).key != key@,
            decreases self.entries@.len() - i,
        {
            if self.entries[i].key.same(key) {
                return Some(i);
            }
            i = i + 1;
        }
        None
    }

    /// The pipeline at a position.
    pub fn get(&self, position: usize) -> (r: &Pipeline)
        requires
            position < self@.len(),
        ensures
            *r == self.pipelines()[position as int],
            r@ == self@[position as int],
    {
        &self.entries[position]
    }

    /// The position of the pipeline with the key. Where there is none yet,
    /// `desc_fn` is called, once, and its artifact becomes the new, last
    /// pipeline; where it fails, the cache stays as it was.
    pub fn cached<F: FnOnce() -> Result<KernelDesc, Error>>(&mut self, key: KernelKey, desc_fn: F) -> (r:
        Result<usize, Error>)
        requires
            old(self).wf(),
            call_requires(desc_fn, ()),
            forall|d: KernelDesc| call_ensures(desc_fn, (), Ok::<KernelDesc, Error>(d)) ==> d.wf(),
        ensures
            final(self).wf(),
            match r {
                Ok(i) => {
                    &&& i < final(self)@.len()
                    &&& final(self)@[i as int].key == key@
                    &&& if has_key(old(self)@, key@) {
                        final(self).pipelines() == old(self).pipelines()
                    } else {
                        &&& i == old(self)@.len()
                        &&& final(self).pipelines().len() == old(self)@.len() + 1
                        &&& final(self).pipelines().drop_last() == old(self).pipelines()
                        &&& call_ensures(
                            desc_fn,
                            (),
                            Ok::<KernelDesc, Error>(final(self).pipelines()[i as int].desc),
                        )
                    }
                },
                Err(e) => {
                    &&& !has_key(old(self)@, key@)
                    &&& final(self).pipelines() == old(self).pipelines()
                    &&& call_ensures(desc_fn, (), Err::<KernelDesc, Error>(e))
                },
            },
    {
        match self.position(&key) {
            Some(i) => Ok(i),
            None => {
                match desc_fn() {
                    Ok(desc) => {
                        let push_consts_range = desc.push_consts_range();
                        let i = self.entries.len();
                        let ghost before = self@;
                        self.entries.push(Pipeline { key, desc, push_consts_range });
                        proof {
                            assert(self@.drop_last() =~= before);
                            assert(self.pipelines().drop_last() =~= old(self).pipelines());
                            assert forall|a: int, b: int| 0 <= a < b < self@.len() implies (
                            #[trigger] self@[a]).key != (#[trigger] self@[b]).key by {
                                if b == before.len() {
                                    assert(before[a].key != key@);
                                } else {
                                    assert(before[a].key != before[b].key);
                                }
                            }
                        }
                        Ok(i)
                    },
                    Err(e) => Err(e),
                }
            },
        }
    }
}

} // verus!
