//! The scene graph: an arena of nodes, each owning a list of child indices
//! that always point forward, so the structure is a forest with no cycles.
//! Today a single entity holds one childless root node — the character —
//! but the data model carries arbitrary trees.

use vstd::prelude::*;
use crate::fixed::FX_ONE;
use crate::fixed::fx_lerp;
use crate::fixed::fx_lerp_spec;
use crate::fixed::fx_min;
use crate::fixed::fx_mul;
use crate::fixed::fx_mul_spec;
use crate::geom::Vec2;

verus! {

/// How much the character tracks the cursor even with no recent click:
/// `0.1` is added to the click intensity before scaling by `delta`.
pub const CHARACTER_BIAS: i64 = 6554;

/// A drawable graph vertex owning the indices of its children.
#[derive(Clone, PartialEq, Eq, Debug)]
pub struct Node {
    pub pos: Vec2,
    pub children: Vec<usize>,
}

/// An entity: the index of one root node in the arena.
#[derive(Clone, Copy, PartialEq, Eq, Structural, Debug)]
pub struct Entity {
    pub root: usize,
}

/// The node arena together with the entities that root its trees.
#[derive(Clone, PartialEq, Eq, Debug)]
pub struct Scene {
    pub nodes: Vec<Node>,
    pub entities: Vec<Entity>,
}

/// A plain element-by-element copy of an index list.
fn copy_indices(v: &Vec<usize>) -> (r: Vec<usize>)
    ensures
        r@ == v@,
{
    let mut r: Vec<usize> = Vec::new();
    let n: usize = v.len();
    let mut i: usize = 0;
    while i < n
        invariant
            i <= n,
            n == v.len(),
            r@ =~= v@.take(i as int),
        decreases n - i,
    {
        r.push(v[i]);
        i += 1;
    }
    proof {
        assert(r@ =~= v@);
    }
    r
}

impl Scene {
    /// Every node position is in range, every child index points forward
    /// (so ownership is a forest, never a cycle), and every entity roots an
    /// existing node.
    pub open spec fn valid(self) -> bool {
        &&& forall|i: int| 0 <= i < self.nodes.len() ==> (#[trigger] self.nodes[i]).pos.in_range()
        &&& forall|i: int, k: int|
            0 <= i < self.nodes.len() && 0 <= k < self.nodes[i].children.len() ==> i
                < #[trigger] self.nodes[i].children[k] < self.nodes.len()
        &&& forall|e: int| 0 <= e < self.entities.len() ==> (#[trigger] self.entities[e]).root
            < self.nodes.len()
    }

    /// The degenerate scene of the animation: one entity whose root is a
    /// single childless node — the character.
    pub fn character(pos: Vec2) -> (s: Scene)
        requires
            pos.in_range(),
        ensures
            s.valid(),
            s.nodes.len() == 1,
            s.entities.len() == 1,
            s.nodes[0].pos == pos,
            s.nodes[0].children.len() == 0,
            s.entities[0].root == 0,
    {
        let mut nodes: Vec<Node> = Vec::new();
        nodes.push(Node { pos, children: Vec::new() });
        let mut entities: Vec<Entity> = Vec::new();
        entities.push(Entity { root: 0 });
        Scene { nodes, entities }
    }

    /// The position of an entity's root node.
    pub fn root_pos(&self, e: usize) -> (r: Vec2)
        requires
            self.valid(),
            e < self.entities.len(),
        ensures
            r == self.nodes[self.entities[e as int].root as int].pos,
            r.in_range(),
    {
        let root: usize = self.entities[e].root;
        self.nodes[root].pos
    }

    /// Move an entity's root node to `pos`; everything else is untouched.
    pub fn set_root_pos(&mut self, e: usize, pos: Vec2)
        requires
            old(self).valid(),
            e < old(self).entities.len(),
            pos.in_range(),
        ensures
            final(self).valid(),
            final(self).entities == old(self).entities,
            final(self).nodes.len() == old(self).nodes.len(),
            final(self).nodes[old(self).entities[e as int].root as int].pos == pos,
            forall|i: int|
                0 <= i < final(self).nodes.len() && i != old(self).entities[e as int].root
                    ==> #[trigger] final(self).nodes[i] == old(self).nodes[i],
            forall|i: int|
                0 <= i < final(self).nodes.len() ==> (#[trigger] final(self).nodes[i]).children@
                    == old(self).nodes[i].children@,
    {
        let root: usize = self.entities[e].root;
        let children: Vec<usize> = copy_indices(&self.nodes[root].children);
        self.nodes.set(root, Node { pos, children });
    }

    /// The positions drawn for one entity: its root node and the root's
    /// direct children, in order. (Rendering walks one level only; deeper
    /// trees are carried by the data model but not yet drawn.)
    pub fn draw_list(&self, e: usize) -> (v: Vec<Vec2>)
        requires
            self.valid(),
            e < self.entities.len(),
        ensures
            v.len() == 1 + self.nodes[self.entities[e as int].root as int].children.len(),
            v[0] == self.nodes[self.entities[e as int].root as int].pos,
            forall|k: int|
                0 <= k < self.nodes[self.entities[e as int].root as int].children.len()
                    ==> #[trigger] v[k + 1] == self.nodes[self.nodes[self.entities[e as int].root as int].children[k] as int].pos,
            forall|k: int| 0 <= k < v.len() ==> (#[trigger] v[k]).in_range(),
    {
        let root: usize = self.entities[e].root;
        let mut v: Vec<Vec2> = Vec::new();
        v.push(self.nodes[root].pos);
        let n: usize = self.nodes[root].children.len();
        let mut k: usize = 0;
        while k < n
            invariant
                self.valid(),
                root < self.nodes.len(),
                root == self.entities[e as int].root,
                e < self.entities.len(),
                n == self.nodes[root as int].children.len(),
                k <= n,
                v.len() == 1 + k,
                v[0] == self.nodes[root as int].pos,
                forall|m: int|
                    0 <= m < k ==> #[trigger] v[m + 1] == self.nodes[self.nodes[root as int].children[m] as int].pos,
                forall|m: int| 0 <= m < v.len() ==> (#[trigger] v[m]).in_range(),
            decreases n - k,
        {
            let child: usize = self.nodes[root].children[k];
            v.push(self.nodes[child].pos);
            k += 1;
        }
        v
    }
}

/// One tick of the character: interpolate its position toward the cursor
/// carried into world space, by the fraction
/// `min((click + 0.1) * delta, 1)`.
pub open spec fn character_step_spec(current: Vec2, target: Vec2, click: int, delta: int) -> Vec2 {
    let t0 = fx_mul_spec(click + CHARACTER_BIAS as int, delta);
    let t = if t0 >= FX_ONE as int {
        FX_ONE as int
    } else {
        t0
    };
    Vec2 {
        x: fx_lerp_spec(current.x as int, target.x as int, t) as i64,
        y: fx_lerp_spec(current.y as int, target.y as int, t) as i64,
    }
}

/// Advance the character toward its target by one tick.
pub fn character_step(current: Vec2, target: Vec2, click: i64, delta: i64) -> (r: Vec2)
    requires
        current.in_range(),
        target.in_range(),
        0 <= click <= FX_ONE,
        0 <= delta <= FX_ONE,
    ensures
        r == character_step_spec(current, target, click as int, delta as int),
        r.in_range(),
{
    proof {
        assert((click as int + CHARACTER_BIAS as int) * (delta as int) <= 0x4000_0000_0000_0000)
            by (nonlinear_arith)
            requires
                0 <= click as int <= 65536,
                0 <= delta as int <= 65536,
                CHARACTER_BIAS as int == 6554,
        ;
        assert(0 <= (click as int + CHARACTER_BIAS as int) * (delta as int)) by (nonlinear_arith)
            requires
                0 <= click,
                0 <= delta,
        ;
        vstd::arithmetic::div_mod::lemma_div_is_ordered(
            0,
            (click as int + CHARACTER_BIAS as int) * (delta as int),
            FX_ONE as int,
        );
    }
    let t: i64 = fx_min(fx_mul(click + CHARACTER_BIAS, delta), FX_ONE);
    let nx: i64 = fx_lerp(current.x, target.x, t);
    let ny: i64 = fx_lerp(current.y, target.y, t);
    Vec2 { x: nx, y: ny }
}

} // verus!
