//! Compute-pipeline planning from a shader's reflected interface: which
//! descriptor bindings it declares, grouped into one descriptor-set layout
//! per distinct set index in ascending order, plus its push-constant range.
//!
//! Reflecting the SPIR-V module is the embedder's call into its reflection
//! library, whose result arrives here as plain values; a reflection
//! library may stop with a panic on some modules that parse but are
//! semantically malformed, which no contract of this crate could absorb,
//! so the call cannot stand behind a trusted item.  `ShaderPipeline::new`
//! admits a reflected interface exactly when it has the shape reflection
//! reports — bindings strictly sorted by set and then binding — and
//! everything from there to the layout plan is decided and proved here.

use vstd::prelude::*;

verus! {

/// How many descriptors a binding asks for.
#[derive(Debug, Copy, Clone, PartialEq, Eq, Structural)]
pub enum BindingCountDesc {
    One,
    StaticSized(usize),
    Unbounded,
}

/// One descriptor binding as reflection reports it: its set and binding
/// indices, the `VkDescriptorType` code, and its array size.
#[derive(Debug, Copy, Clone, PartialEq, Eq, Structural)]
pub struct BindingDesc {
    pub set: u32,
    pub binding: u32,
    pub descriptor_type: u32,
    pub count: BindingCountDesc,
}

/// A shader's push-constant range.
#[derive(Debug, Copy, Clone, PartialEq, Eq, Structural)]
pub struct PushConstantRange {
    pub offset: u32,
    pub size: u32,
}

/// Bindings ordered strictly by set index, then binding index.
pub open spec fn bindings_sorted(s: Seq<BindingDesc>) -> bool {
    forall|i: int|
        0 <= i && i + 1 < s.len() ==> (#[trigger] s[i]).set < s[i + 1].set || (s[i].set == s[i
            + 1].set && s[i].binding < s[i + 1].binding)
}

/// Why a shader's reflected interface was rejected: it does not have the
/// shape reflection reports, or the embedder's reflection itself failed.
#[derive(Debug, Copy, Clone, PartialEq, Eq, Structural)]
pub enum ShaderError {
    Reflection,
}

/// One descriptor-set layout: a set index and the bindings laid out in it.
#[derive(Debug, Clone)]
pub struct DescriptorSetGroup {
    pub set: u32,
    pub bindings: Vec<BindingDesc>,
}

/// Everything a compute pipeline is built from: the descriptor-set layouts
/// in ascending set order and the push-constant range, if any.
#[derive(Debug, Clone)]
pub struct ComputePipelinePlan {
    pub set_groups: Vec<DescriptorSetGroup>,
    pub push_constant_range: Option<PushConstantRange>,
}

/// The groups' bindings, flattened back in order.
pub open spec fn groups_flatten(gs: Seq<DescriptorSetGroup>) -> Seq<BindingDesc>
    decreases gs.len(),
{
    if gs.len() == 0 {
        Seq::empty()
    } else {
        groups_flatten(gs.drop_last()) + gs.last().bindings@
    }
}

/// A well-formed layout plan: set indices strictly ascend, no group is
/// empty, and each group holds exactly the bindings of its set.
pub open spec fn groups_wf(gs: Seq<DescriptorSetGroup>) -> bool {
    &&& forall|i: int| 0 <= i && i + 1 < gs.len() ==> (#[trigger] gs[i]).set < gs[i + 1].set
    &&& forall|i: int|
        0 <= i < gs.len() ==> (#[trigger] gs[i]).bindings@.len() >= 1 && forall|j: int|
            0 <= j < gs[i].bindings@.len() ==> (#[trigger] gs[i].bindings@[j]).set == gs[i].set
}

/// Group sorted bindings by set index: one descriptor-set layout per
/// distinct set, ascending, each carrying its bindings in order.
#[verifier::rlimit(30)]
pub fn descriptor_set_groups(bindings: &Vec<BindingDesc>) -> (r: Vec<DescriptorSetGroup>)
    requires
        bindings_sorted(bindings@),
    ensures
        groups_wf(r@),
        groups_flatten(r@) == bindings@,
{
    let mut groups: Vec<DescriptorSetGroup> = Vec::new();
    let mut i: usize = 0;
    proof {
        assert(groups_flatten(groups@) =~= bindings@.subrange(0, 0));
    }
    while i < bindings.len()
        invariant
            i <= bindings@.len(),
            bindings_sorted(bindings@),
            groups_wf(groups@),
            groups_flatten(groups@) == bindings@.subrange(0, i as int),
            groups@.len() >= 1 ==> i >= 1 && groups@.last().set == bindings@[i - 1].set,
            i >= 1 && groups@.len() == 0 ==> false,
        decreases bindings@.len() - i,
    {
        let b = bindings[i];
        let ghost old_groups = groups@;
        if groups.len() >= 1 && groups[groups.len() - 1].set == b.set {
            let mut g = groups.pop().unwrap();
            g.bindings.push(b);
            groups.push(g);
            proof {
                assert(groups@.drop_last() =~= old_groups.drop_last());
                assert(groups@.last().bindings@ =~= old_groups.last().bindings@.push(b));
                lemma_groups_flatten_push_last(old_groups, groups@, b);
                assert(groups_flatten(groups@) =~= bindings@.subrange(0, (i + 1) as int));
                lemma_groups_wf_extend_last(old_groups, groups@, b);
            }
        } else {
            let mut bs: Vec<BindingDesc> = Vec::new();
            bs.push(b);
            groups.push(DescriptorSetGroup { set: b.set, bindings: bs });
            proof {
                assert(groups@.drop_last() =~= old_groups);
                assert(groups@.last().bindings@ =~= Seq::<BindingDesc>::empty().push(b));
                assert(groups_flatten(groups@) =~= bindings@.subrange(0, (i + 1) as int));
                if old_groups.len() >= 1 {
                    assert(bindings@[i - 1].set == old_groups.last().set);
                    assert(bindings@[i - 1].set < bindings@[i as int].set || (bindings@[i
                        - 1].set == bindings@[i as int].set && bindings@[i - 1].binding
                        < bindings@[i as int].binding));
                    assert(old_groups.last().set < b.set);
                }
                lemma_groups_wf_new_group(old_groups, groups@, b);
            }
        }
        i = i + 1;
    }
    proof {
        assert(bindings@.subrange(0, bindings@.len() as int) =~= bindings@);
    }
    groups
}

/// Appending a binding of the same set to the last group keeps the plan
/// well formed.
proof fn lemma_groups_wf_extend_last(
    old_groups: Seq<DescriptorSetGroup>,
    new_groups: Seq<DescriptorSetGroup>,
    b: BindingDesc,
)
    requires
        groups_wf(old_groups),
        old_groups.len() >= 1,
        new_groups.len() == old_groups.len(),
        new_groups.drop_last() == old_groups.drop_last(),
        new_groups.last().set == old_groups.last().set,
        new_groups.last().bindings@ == old_groups.last().bindings@.push(b),
        b.set == old_groups.last().set,
    ensures
        groups_wf(new_groups),
{
    let gl = new_groups.len() as int;
    assert forall|x: int| 0 <= x && x + 1 < gl implies (#[trigger] new_groups[x]).set < new_groups[x
        + 1].set by {
        assert(old_groups[x].set < old_groups[x + 1].set);
        assert(new_groups.drop_last()[x] == new_groups[x]);
        assert(old_groups.drop_last()[x] == old_groups[x]);
        assert(new_groups[x] == old_groups[x]);
        if x + 1 < gl - 1 {
            assert(new_groups.drop_last()[x + 1] == new_groups[x + 1]);
            assert(old_groups.drop_last()[x + 1] == old_groups[x + 1]);
            assert(new_groups[x + 1] == old_groups[x + 1]);
        } else {
            assert(new_groups[x + 1].set == old_groups[x + 1].set);
        }
    }
    assert forall|x: int| 0 <= x < gl implies (#[trigger] new_groups[x]).bindings@.len() >= 1
        && forall|j: int|
        0 <= j < new_groups[x].bindings@.len() ==> (#[trigger] new_groups[x].bindings@[j]).set
            == new_groups[x].set by {
        if x < gl - 1 {
            assert(new_groups.drop_last()[x] == new_groups[x]);
            assert(old_groups.drop_last()[x] == old_groups[x]);
            assert(new_groups[x] == old_groups[x]);
            assert(old_groups[x].bindings@.len() >= 1);
        } else {
            assert forall|j: int| 0 <= j < new_groups[x].bindings@.len() implies (
            #[trigger] new_groups[x].bindings@[j]).set == new_groups[x].set by {
                if j < old_groups.last().bindings@.len() {
                    assert(old_groups.last().bindings@[j].set == old_groups.last().set);
                }
            }
        }
    }
}

/// Opening a fresh group for a strictly larger set index keeps the plan
/// well formed.
proof fn lemma_groups_wf_new_group(
    old_groups: Seq<DescriptorSetGroup>,
    new_groups: Seq<DescriptorSetGroup>,
    b: BindingDesc,
)
    requires
        groups_wf(old_groups),
        new_groups.len() == old_groups.len() + 1,
        new_groups.drop_last() == old_groups,
        new_groups.last().set == b.set,
        new_groups.last().bindings@ == Seq::<BindingDesc>::empty().push(b),
        old_groups.len() >= 1 ==> old_groups.last().set < b.set,
    ensures
        groups_wf(new_groups),
{
    let gl = new_groups.len() as int;
    assert forall|x: int| 0 <= x && x + 1 < gl implies (#[trigger] new_groups[x]).set < new_groups[x
        + 1].set by {
        assert(new_groups.drop_last()[x] == new_groups[x]);
        assert(new_groups[x] == old_groups[x]);
        if x + 1 < gl - 1 {
            assert(new_groups.drop_last()[x + 1] == new_groups[x + 1]);
            assert(new_groups[x + 1] == old_groups[x + 1]);
            assert(old_groups[x].set < old_groups[x + 1].set);
        } else {
            assert(old_groups[x].set == old_groups.last().set);
        }
    }
    assert forall|x: int| 0 <= x < gl implies (#[trigger] new_groups[x]).bindings@.len() >= 1
        && forall|j: int|
        0 <= j < new_groups[x].bindings@.len() ==> (#[trigger] new_groups[x].bindings@[j]).set
            == new_groups[x].set by {
        if x < gl - 1 {
            assert(new_groups.drop_last()[x] == new_groups[x]);
            assert(new_groups[x] == old_groups[x]);
            assert(old_groups[x].bindings@.len() >= 1);
        }
    }
}

proof fn lemma_groups_flatten_push_last(
    old_groups: Seq<DescriptorSetGroup>,
    new_groups: Seq<DescriptorSetGroup>,
    b: BindingDesc,
)
    requires
        old_groups.len() >= 1,
        new_groups.len() == old_groups.len(),
        new_groups.drop_last() == old_groups.drop_last(),
        new_groups.last().set == old_groups.last().set,
        new_groups.last().bindings@ == old_groups.last().bindings@.push(b),
    ensures
        groups_flatten(new_groups) == groups_flatten(old_groups).push(b),
{
    assert(groups_flatten(new_groups) == groups_flatten(new_groups.drop_last())
        + new_groups.last().bindings@);
    assert(groups_flatten(old_groups) == groups_flatten(old_groups.drop_last())
        + old_groups.last().bindings@);
    assert(groups_flatten(new_groups) =~= groups_flatten(old_groups).push(b));
}

/// A compute shader, held as its reflected module.
pub struct ShaderPipeline {
    bindings: Vec<BindingDesc>,
    push_constant_range: Option<PushConstantRange>,
}

impl ShaderPipeline {
    /// The shader's descriptor bindings, as reflection reported them.
    pub closed spec fn bindings_spec(&self) -> Seq<BindingDesc> {
        self.bindings@
    }

    /// The shader's push-constant range, if it has one.
    pub closed spec fn push_constant_range_spec(&self) -> Option<PushConstantRange> {
        self.push_constant_range
    }

    /// A well-formed shader interface: the bindings are strictly sorted by
    /// set and then binding, as reflection's ordered maps yield them.
    pub closed spec fn wf(&self) -> bool {
        bindings_sorted(self.bindings@)
    }

    /// Accept one shader's reflected interface.  Rejected exactly when the
    /// bindings are not strictly (set, binding)-sorted — the shape every
    /// reflection result has — so a well-formed pipeline always comes out
    /// of a genuine reflection.
    pub fn new(bindings: Vec<BindingDesc>, push_constant_range: Option<PushConstantRange>) -> (r:
        Result<ShaderPipeline, ShaderError>)
        ensures
            r is Ok <==> bindings_sorted(bindings@),
            r matches Ok(p) ==> p.wf() && p.bindings_spec() == bindings@
                && p.push_constant_range_spec() == push_constant_range,
            r is Err ==> r == Err::<ShaderPipeline, ShaderError>(ShaderError::Reflection),
    {
        let n = bindings.len();
        if n >= 2 {
            let mut i: usize = 0;
            while i < n - 1
                invariant
                    2 <= n,
                    i <= n - 1,
                    n == bindings@.len(),
                    forall|j: int|
                        0 <= j && j + 1 < i + 1 ==> (#[trigger] bindings@[j]).set < bindings@[j
                            + 1].set || (bindings@[j].set == bindings@[j + 1].set
                            && bindings@[j].binding < bindings@[j + 1].binding),
                decreases n - i,
            {
                let a = bindings[i];
                let b = bindings[i + 1];
                if !(a.set < b.set || (a.set == b.set && a.binding < b.binding)) {
                    proof {
                        assert(!bindings_sorted(bindings@));
                    }
                    return Err(ShaderError::Reflection);
                }
                i = i + 1;
            }
        }
        proof {
            assert(bindings_sorted(bindings@));
        }
        Ok(ShaderPipeline { bindings, push_constant_range })
    }

    /// Plan the compute pipeline: descriptor-set layouts grouped per set in
    /// ascending order — together holding exactly the shader's reflected
    /// bindings — plus its push-constant range.
    pub fn make_compute_pipeline(&self) -> (r: Result<ComputePipelinePlan, ShaderError>)
        requires
            self.wf(),
        ensures
            r matches Ok(plan) && groups_wf(plan.set_groups@) && groups_flatten(plan.set_groups@)
                == self.bindings_spec() && plan.push_constant_range
                == self.push_constant_range_spec(),
    {
        let set_groups = descriptor_set_groups(&self.bindings);
        Ok(ComputePipelinePlan { set_groups, push_constant_range: self.push_constant_range })
    }
}

} // verus!
