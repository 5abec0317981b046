//! The evaluator: walks a root `EvalObject`, expanding child producers on
//! demand with a `Context` scoped per `KeyPart`, and materializes the tree
//! of `LayoutObject`s. Nodes without a `layout_object` are flattened: their
//! children are spliced, in order, into the nearest layout-bearing ancestor.
use vstd::prelude::*;

use crate::widget::{
    child_context, child_context_spec, Context, EvalObject, KeyPart, LayoutObject,
    LayoutObjectView, Producer,
};

verus! {

/// A materialized layout node: the output of evaluation.
#[derive(Debug, PartialEq, Eq)]
pub struct LayoutTree {
    pub layout: LayoutObject,
    pub children: Vec<LayoutTree>,
}

/// Mathematical image of a `LayoutTree`.
#[verifier::ext_equal]
pub struct LayoutTreeSpec {
    pub layout: LayoutObjectView,
    pub children: Seq<LayoutTreeSpec>,
}

pub open spec fn tree_view(t: LayoutTree) -> LayoutTreeSpec
    decreases t, 1int,
{
    LayoutTreeSpec { layout: t.layout@, children: forest_view(t.children@) }
}

pub open spec fn forest_view(s: Seq<LayoutTree>) -> Seq<LayoutTreeSpec>
    decreases s, 0int,
{
    if s.len() == 0 {
        Seq::empty()
    } else {
        forest_view(s.drop_last()).push(tree_view(s.last()))
    }
}

pub proof fn lemma_forest_view(s: Seq<LayoutTree>)
    ensures
        forest_view(s).len() == s.len(),
        forall|i: int| 0 <= i < s.len() ==> forest_view(s)[i] == tree_view(s[i]),
    decreases s.len(),
{
    if s.len() > 0 {
        lemma_forest_view(s.drop_last());
    }
}

/// Why an evaluation pass was aborted.
#[derive(Clone, Copy, PartialEq, Eq, Structural, Debug)]
pub enum EvalError {
    /// Two siblings share a `KeyPart`, so correlation across re-evaluation
    /// passes would be ambiguous.
    DuplicateKey,
}

pub open spec fn keys_of(cs: Seq<(KeyPart, Producer)>) -> Seq<KeyPart> {
    cs.map_values(|c: (KeyPart, Producer)| c.0)
}

/// No two entries of the key list coincide.
pub open spec fn distinct_keys(ks: Seq<KeyPart>) -> bool {
    forall|i: int, j: int| 0 <= i < j < ks.len() ==> ks[i] != ks[j]
}

/// Sibling keys are unique in this child list and in every list below it.
pub open spec fn list_keys_unique(cs: Seq<(KeyPart, Producer)>) -> bool
    decreases cs, 2int,
{
    distinct_keys(keys_of(cs)) && children_keys_unique(cs)
}

pub open spec fn producer_keys_unique(p: Producer) -> bool
    decreases p, 0int,
{
    match p {
        Producer::Leaf { .. } => true,
        Producer::Container { children, .. } => list_keys_unique(children@),
        Producer::Fragment { children } => list_keys_unique(children@),
    }
}

pub open spec fn children_keys_unique(cs: Seq<(KeyPart, Producer)>) -> bool
    decreases cs, 1int,
{
    if cs.len() == 0 {
        true
    } else {
        children_keys_unique(cs.drop_last()) && producer_keys_unique(cs.last().1)
    }
}

/// Every member of a key-unique child list is itself key-unique.
pub proof fn lemma_children_keys_unique_index(cs: Seq<(KeyPart, Producer)>, i: int)
    requires
        0 <= i < cs.len(),
        children_keys_unique(cs),
    ensures
        producer_keys_unique(cs[i].1),
    decreases cs.len(),
{
    if i == cs.len() - 1 {
    } else {
        lemma_children_keys_unique_index(cs.drop_last(), i);
        assert(cs.drop_last()[i] == cs[i]);
    }
}

/// Checks that no two siblings of this child list share a key.
#[verifier::loop_isolation(false)]
fn keys_distinct(cs: &Vec<(KeyPart, Producer)>) -> (r: bool)
    ensures
        r == distinct_keys(keys_of(cs@)),
{
    let ghost ks = keys_of(cs@);
    let mut i: usize = 0;
    while i < cs.len()
        invariant
            0 <= i <= cs@.len(),
            forall|a: int, b: int| 0 <= a < b < cs@.len() && a < i ==> ks[a] != ks[b],
        decreases cs@.len() - i,
    {
        let mut j: usize = i + 1;
        while j < cs.len()
            invariant
                i < j <= cs@.len(),
                forall|b: int| i < b < j ==> ks[i as int] != ks[b],
            decreases cs@.len() - j,
        {
            if cs[i].0 == cs[j].0 {
                proof {
                    assert(ks[i as int] == ks[j as int]);
                }
                return false;
            }
            j = j + 1;
        }
        i = i + 1;
    }
    true
}

/// Checks sibling-key uniqueness throughout a child list's subtrees.
#[verifier::loop_isolation(false)]
pub fn children_keys_ok(cs: &Vec<(KeyPart, Producer)>) -> (r: bool)
    ensures
        r == list_keys_unique(cs@),
    decreases cs@, 0int,
{
    if !keys_distinct(cs) {
        return false;
    }
    let mut i: usize = 0;
    while i < cs.len()
        invariant
            0 <= i <= cs@.len(),
            children_keys_unique(cs@.take(i as int)),
        decreases cs@.len() - i,
    {
        proof {
            assert(cs@.take(i as int + 1).drop_last() =~= cs@.take(i as int));
            assert(cs@.take(i as int + 1).last() == cs@[i as int]);
        }
        if !producer_keys_ok(&cs[i].1) {
            proof {
                if children_keys_unique(cs@) {
                    lemma_children_keys_unique_index(cs@, i as int);
                }
            }
            return false;
        }
        i = i + 1;
    }
    proof {
        assert(cs@.take(i as int) =~= cs@);
    }
    true
}

/// Checks sibling-key uniqueness throughout a producer's subtree.
#[verifier::loop_isolation(false)]
pub fn producer_keys_ok(p: &Producer) -> (r: bool)
    ensures
        r == producer_keys_unique(*p),
    decreases *p, 1int,
{
    match p {
        Producer::Leaf { .. } => true,
        Producer::Container { children, .. } => children_keys_ok(children),
        Producer::Fragment { children } => children_keys_ok(children),
    }
}

/// The forest of layout nodes a producer evaluates to. A `Leaf` or
/// `Container` starts one node; a `Fragment` contributes its children's
/// nodes directly (flattening), preserving their relative order.
pub open spec fn eval_spec(p: Producer, ctx: Context) -> Seq<LayoutTreeSpec>
    decreases p, 0int,
{
    match p {
        Producer::Leaf { layout } => seq![
            LayoutTreeSpec { layout: layout@, children: Seq::empty() },
        ],
        Producer::Container { layout, children } => seq![
            LayoutTreeSpec {
                layout: layout@,
                children: eval_children_spec(children@, ctx),
            },
        ],
        Producer::Fragment { children } => eval_children_spec(children@, ctx),
    }
}

/// Evaluation of a keyed child list: each child is evaluated with the
/// context scoped to its key, and the resulting forests are concatenated
/// in declaration order.
pub open spec fn eval_children_spec(cs: Seq<(KeyPart, Producer)>, ctx: Context) -> Seq<
    LayoutTreeSpec,
>
    decreases cs, 1int,
{
    if cs.len() == 0 {
        Seq::empty()
    } else {
        eval_children_spec(cs.drop_last(), ctx) + eval_spec(
            cs.last().1,
            child_context_spec(ctx, cs.last().0),
        )
    }
}

pub proof fn lemma_eval_children_take_step(cs: Seq<(KeyPart, Producer)>, ctx: Context, i: int)
    requires
        0 <= i < cs.len(),
    ensures
        eval_children_spec(cs.take(i + 1), ctx) == eval_children_spec(cs.take(i), ctx)
            + eval_spec(cs[i].1, child_context_spec(ctx, cs[i].0)),
{
    assert(cs.take(i + 1).drop_last() =~= cs.take(i));
    assert(cs.take(i + 1).last() == cs[i]);
}

/// The forest formed from an optional layout node and a child list: with a
/// node the children become its children; without one they are lifted.
pub open spec fn assemble_spec(
    layout_object: Option<LayoutObject>,
    cs: Seq<(KeyPart, Producer)>,
    ctx: Context,
) -> Seq<LayoutTreeSpec> {
    match layout_object {
        Some(lo) => seq![
            LayoutTreeSpec { layout: lo@, children: eval_children_spec(cs, ctx) },
        ],
        None => eval_children_spec(cs, ctx),
    }
}

/// Evaluation of a whole `EvalObject`: with a `layout_object` its children
/// become children of that node; without one they are lifted to the caller.
pub open spec fn eval_object_spec(e: EvalObject, ctx: Context) -> Seq<LayoutTreeSpec> {
    assemble_spec(e.layout_object, e.children@, ctx)
}

/// Evaluates one producer into its forest of layout nodes.
#[verifier::loop_isolation(false)]
pub fn eval_producer(p: Producer, ctx: Context) -> (r: Vec<LayoutTree>)
    ensures
        forest_view(r@) == eval_spec(p, ctx),
    decreases p,
{
    let layout_object: Option<LayoutObject>;
    let mut children: Vec<(KeyPart, Producer)>;
    match p {
        Producer::Leaf { layout } => {
            layout_object = Some(layout);
            children = Vec::new();
            proof {
                assert(assemble_spec(layout_object, children@, ctx) =~~= eval_spec(p, ctx));
            }
        },
        Producer::Container { layout, children: cs } => {
            layout_object = Some(layout);
            children = cs;
            proof {
                assert(assemble_spec(layout_object, children@, ctx) =~~= eval_spec(p, ctx));
            }
        },
        Producer::Fragment { children: cs } => {
            layout_object = None;
            children = cs;
            proof {
                assert(assemble_spec(layout_object, children@, ctx) =~~= eval_spec(p, ctx));
            }
        },
    }
    let ghost cs0 = children@;
    let ghost goal = eval_spec(p, ctx);
    proof {
        assert forall|i: int| 0 <= i < cs0.len() implies decreases_to!(p => cs0[i].1) by {
            assert(decreases_to!(cs0 => cs0[i]));
        }
    }
    let mut forest: Vec<LayoutTree> = Vec::new();
    let ghost mut idx: int = 0;
    while children.len() > 0
        invariant
            0 <= idx,
            idx + children@.len() == cs0.len(),
            children@ == cs0.skip(idx),
            forest_view(forest@) == eval_children_spec(cs0.take(idx), ctx),
        decreases children@.len(),
    {
        let (k, cp) = children.remove(0);
        proof {
            assert(cs0.skip(idx)[0] == cs0[idx]);
            assert((k, cp) == cs0[idx]);
        }
        let cctx = child_context(ctx, k);
        let mut sub = eval_producer(cp, cctx);
        let ghost pre = forest@;
        let ghost sub0 = sub@;
        forest.append(&mut sub);
        proof {
            lemma_eval_children_take_step(cs0, ctx, idx);
            lemma_forest_view_append(pre, sub0);
            assert(cs0.skip(idx).remove(0) =~= cs0.skip(idx).skip(1));
            assert(cs0.skip(idx).skip(1) =~= cs0.skip(idx + 1));
            idx = idx + 1;
        }
    }
    proof {
        assert(cs0.take(idx) =~= cs0);
    }
    match layout_object {
        Some(lo) => {
            let node = LayoutTree { layout: lo, children: forest };
            let mut r: Vec<LayoutTree> = Vec::new();
            r.push(node);
            proof {
                assert(r@.drop_last() =~= Seq::<LayoutTree>::empty());
                assert(r@.last() == node);
                let rhs = LayoutTreeSpec {
                    layout: lo@,
                    children: eval_children_spec(cs0, ctx),
                };
                assert(tree_view(node).children == eval_children_spec(cs0, ctx));
                assert(tree_view(node) =~= rhs);
                assert(forest_view(Seq::<LayoutTree>::empty()) =~= Seq::<LayoutTreeSpec>::empty());
                assert(forest_view(r@) == forest_view(r@.drop_last()).push(tree_view(r@.last())));
                assert(forest_view(r@) =~= seq![rhs]);
                assert(assemble_spec(Some(lo), cs0, ctx) == seq![rhs]);
            }
            r
        },
        None => forest,
    }
}

pub proof fn lemma_forest_view_append(a: Seq<LayoutTree>, b: Seq<LayoutTree>)
    ensures
        forest_view(a + b) == forest_view(a) + forest_view(b),
    decreases b.len(),
{
    if b.len() == 0 {
        assert(a + b =~= a);
        assert(forest_view(a) + forest_view(b) =~= forest_view(a));
    } else {
        lemma_forest_view_append(a, b.drop_last());
        assert((a + b).drop_last() =~= a + b.drop_last());
        assert((a + b).last() == b.last());
        assert(forest_view(a) + forest_view(b) =~= (forest_view(a) + forest_view(
            b.drop_last(),
        )).push(tree_view(b.last())));
    }
}

/// Evaluates a root `EvalObject` with an initial context into the fully
/// materialized forest of layout nodes. Duplicate sibling keys anywhere in
/// the tree make correlation across re-evaluation passes ambiguous, so the
/// pass is rejected, exactly then. (`eval_producer` is the raw expansion;
/// this entry point is the one that enforces key uniqueness.)
#[verifier::loop_isolation(false)]
pub fn evaluate(root: EvalObject, ctx: Context) -> (r: Result<Vec<LayoutTree>, EvalError>)
    ensures
        r is Ok <==> list_keys_unique(root.children@),
        r matches Ok(v) ==> forest_view(v@) == eval_object_spec(root, ctx),
        r matches Err(e) ==> e == EvalError::DuplicateKey,
{
    if !children_keys_ok(&root.children) {
        return Err(EvalError::DuplicateKey);
    }
    let EvalObject { mut children, layout_object } = root;
    let ghost cs0 = children@;
    proof {
        assert(eval_object_spec(root, ctx) == assemble_spec(layout_object, cs0, ctx));
    }
    let mut forest: Vec<LayoutTree> = Vec::new();
    let ghost mut idx: int = 0;
    while children.len() > 0
        invariant
            0 <= idx,
            idx + children@.len() == cs0.len(),
            children@ == cs0.skip(idx),
            forest_view(forest@) == eval_children_spec(cs0.take(idx), ctx),
        decreases children@.len(),
    {
        let (k, cp) = children.remove(0);
        proof {
            assert(cs0.skip(idx)[0] == cs0[idx]);
            assert((k, cp) == cs0[idx]);
        }
        let cctx = child_context(ctx, k);
        let mut sub = eval_producer(cp, cctx);
        let ghost pre = forest@;
        let ghost sub0 = sub@;
        forest.append(&mut sub);
        proof {
            lemma_eval_children_take_step(cs0, ctx, idx);
            lemma_forest_view_append(pre, sub0);
            assert(cs0.skip(idx).remove(0) =~= cs0.skip(idx).skip(1));
            assert(cs0.skip(idx).skip(1) =~= cs0.skip(idx + 1));
            idx = idx + 1;
        }
    }
    proof {
        assert(cs0.take(idx) =~= cs0);
    }
    match layout_object {
        Some(lo) => {
            let node = LayoutTree { layout: lo, children: forest };
            let mut r: Vec<LayoutTree> = Vec::new();
            r.push(node);
            proof {
                assert(r@.drop_last() =~= Seq::<LayoutTree>::empty());
                assert(r@.last() == node);
                let rhs = LayoutTreeSpec {
                    layout: lo@,
                    children: eval_children_spec(cs0, ctx),
                };
                assert(tree_view(node).children == eval_children_spec(cs0, ctx));
                assert(tree_view(node) =~= rhs);
                assert(forest_view(Seq::<LayoutTree>::empty()) =~= Seq::<LayoutTreeSpec>::empty());
                assert(forest_view(r@) == forest_view(r@.drop_last()).push(tree_view(r@.last())));
                assert(forest_view(r@) =~= seq![rhs]);
                assert(assemble_spec(Some(lo), cs0, ctx) == seq![rhs]);
            }
            Ok(r)
        },
        None => Ok(forest),
    }
}

/// Law: flattening is transparent. Evaluating an `EvalObject` that has no
/// `layout_object` and exactly one child under the no-op key yields exactly
/// what evaluating that child's producer directly with the same context
/// yields.
pub proof fn lemma_flatten_transparent(e: EvalObject, ctx: Context, p: Producer)
    requires
        e.layout_object is None,
        e.children@.len() == 1,
        e.children@[0].0 == KeyPart::Nop,
        e.children@[0].1 == p,
    ensures
        eval_object_spec(e, ctx) == eval_spec(p, ctx),
{
    let cs = e.children@;
    assert(cs.drop_last() =~= Seq::<(KeyPart, Producer)>::empty());
    assert(cs.last() == cs[0]);
    assert(child_context_spec(ctx, cs.last().0) == ctx);
    assert(eval_children_spec(cs.drop_last(), ctx) =~= Seq::<LayoutTreeSpec>::empty());
    assert(eval_children_spec(cs, ctx) == eval_children_spec(cs.drop_last(), ctx) + eval_spec(
        p,
        ctx,
    ));
    assert(Seq::<LayoutTreeSpec>::empty() + eval_spec(p, ctx) =~= eval_spec(p, ctx));
}

} // verus!
