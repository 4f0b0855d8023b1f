//! The compiled pattern document: an append-only arena of syntax nodes
//! addressed by stable `u32` handles, with adjacency links, label
//! tables resolved last-declaration-wins, and the expression pool.

use vstd::prelude::*;

use crate::expr::{BulletMLExpression, ExprNode, expr_node_wf, pool_wf};
use vstd::utf8::encode_utf8;

verus! {

/// The coordinate-system tag carried by a document root.
#[derive(Debug, PartialEq, Eq, Structural, Clone, Copy)]
pub enum BulletMLType {
    Vertical,
    Horizontal,
}

/// How a direction value is to be interpreted.
#[derive(Debug, PartialEq, Eq, Structural, Clone, Copy)]
pub enum DirectionType {
    Aim,
    Absolute,
    Relative,
    Sequence,
}

/// How a speed value is to be interpreted.
#[derive(Debug, PartialEq, Eq, Structural, Clone, Copy)]
pub enum SpeedType {
    Absolute,
    Relative,
    Sequence,
}

/// How an acceleration component is to be interpreted.
#[derive(Debug, PartialEq, Eq, Structural, Clone, Copy)]
pub enum HVType {
    Absolute,
    Relative,
    Sequence,
}

/// One syntax node of a pattern document.
#[derive(Debug)]
pub enum BulletMLNode {
    /// The document root, with its optional coordinate-system tag.
    BulletML { bml_type: Option<BulletMLType> },
    Bullet(Option<String>),
    Action(Option<String>),
    Fire(Option<String>),
    ChangeDirection,
    ChangeSpeed,
    Accel,
    Wait(BulletMLExpression),
    Vanish,
    Repeat,
    Direction { dir_type: Option<DirectionType>, dir: BulletMLExpression },
    Speed { spd_type: Option<SpeedType>, spd: BulletMLExpression },
    Horizontal { h_type: HVType, h: BulletMLExpression },
    Vertical { v_type: HVType, v: BulletMLExpression },
    Term(BulletMLExpression),
    Times(BulletMLExpression),
    BulletRef(String),
    ActionRef(String),
    FireRef(String),
    Param(BulletMLExpression),
}

/// The bytes of `"top"` in order: `t`, `o`, `p`.
pub open spec fn spec_is_top_label(s: Seq<u8>) -> bool {
    s.len() >= 3 && s[0] == 116u8 && s[1] == 111u8 && s[2] == 112u8
}

impl BulletMLNode {
    /// Whether this node is an action whose label begins with `top`,
    /// which makes it a top-level entry point of its document.
    pub fn is_top_action(&self) -> (r: bool)
        ensures
            r == match self {
                BulletMLNode::Action(Some(label)) => spec_is_top_label(encode_utf8(label@)),
                _ => false,
            },
    {
        if let BulletMLNode::Action(Some(label)) = self {
            let b = label.as_str().as_bytes();
            b.len() >= 3 && b[0] == 116u8 && b[1] == 111u8 && b[2] == 112u8
        } else {
            false
        }
    }

    /// Whether this node is an action or an action reference.
    pub fn match_any_action(&self) -> (r: Option<()>)
        ensures
            r is Some <==> (self matches BulletMLNode::Action(_) || self
                matches BulletMLNode::ActionRef(_)),
    {
        match self {
            BulletMLNode::Action(..) | BulletMLNode::ActionRef(..) => Some(()),
            _ => None,
        }
    }

    /// Whether this node is a bullet or a bullet reference.
    pub fn match_any_bullet(&self) -> (r: Option<()>)
        ensures
            r is Some <==> (self matches BulletMLNode::Bullet(_) || self
                matches BulletMLNode::BulletRef(_)),
    {
        match self {
            BulletMLNode::Bullet(..) | BulletMLNode::BulletRef(..) => Some(()),
            _ => None,
        }
    }

    /// The payload of a direction node, if this is one.
    pub fn match_direction(&self) -> (r: Option<(Option<DirectionType>, BulletMLExpression)>)
        ensures
            match self {
                BulletMLNode::Direction { dir_type, dir } => r == Some::<
                    (Option<DirectionType>, BulletMLExpression),
                >((*dir_type, *dir)),
                _ => r is None,
            },
    {
        if let BulletMLNode::Direction { dir_type, dir } = self {
            Some((*dir_type, *dir))
        } else {
            None
        }
    }

    /// The payload of a speed node, if this is one.
    pub fn match_speed(&self) -> (r: Option<(Option<SpeedType>, BulletMLExpression)>)
        ensures
            match self {
                BulletMLNode::Speed { spd_type, spd } => r == Some::<
                    (Option<SpeedType>, BulletMLExpression),
                >((*spd_type, *spd)),
                _ => r is None,
            },
    {
        if let BulletMLNode::Speed { spd_type, spd } = self {
            Some((*spd_type, *spd))
        } else {
            None
        }
    }

    /// The payload of a horizontal-acceleration node, if this is one.
    pub fn match_horizontal(&self) -> (r: Option<(HVType, BulletMLExpression)>)
        ensures
            match self {
                BulletMLNode::Horizontal { h_type, h } => r == Some::<
                    (HVType, BulletMLExpression),
                >((*h_type, *h)),
                _ => r is None,
            },
    {
        if let BulletMLNode::Horizontal { h_type, h } = self {
            Some((*h_type, *h))
        } else {
            None
        }
    }

    /// The payload of a vertical-acceleration node, if this is one.
    pub fn match_vertical(&self) -> (r: Option<(HVType, BulletMLExpression)>)
        ensures
            match self {
                BulletMLNode::Vertical { v_type, v } => r == Some::<
                    (HVType, BulletMLExpression),
                >((*v_type, *v)),
                _ => r is None,
            },
    {
        if let BulletMLNode::Vertical { v_type, v } = self {
            Some((*v_type, *v))
        } else {
            None
        }
    }

    /// The payload of a times node, if this is one.
    pub fn match_times(&self) -> (r: Option<BulletMLExpression>)
        ensures
            match self {
                BulletMLNode::Times(times) => r == Some::<BulletMLExpression>(*times),
                _ => r is None,
            },
    {
        if let BulletMLNode::Times(times) = self {
            Some(*times)
        } else {
            None
        }
    }

    /// The payload of a term node, if this is one.
    pub fn match_term(&self) -> (r: Option<BulletMLExpression>)
        ensures
            match self {
                BulletMLNode::Term(term) => r == Some::<BulletMLExpression>(*term),
                _ => r is None,
            },
    {
        if let BulletMLNode::Term(term) = self {
            Some(*term)
        } else {
            None
        }
    }
}

/// Every expression handle held by this node lies inside a pool of
/// `elen` entries.
pub open spec fn expr_ref_wf(e: BulletMLExpression, elen: nat) -> bool {
    match e {
        BulletMLExpression::Const(_) => true,
        BulletMLExpression::Expr(h) => h < elen,
    }
}

/// Every expression handle held by this node lies inside a pool of
/// `elen` entries.
pub open spec fn node_exprs_wf(n: BulletMLNode, elen: nat) -> bool {
    match n {
        BulletMLNode::Wait(e) => expr_ref_wf(e, elen),
        BulletMLNode::Direction { dir, .. } => expr_ref_wf(dir, elen),
        BulletMLNode::Speed { spd, .. } => expr_ref_wf(spd, elen),
        BulletMLNode::Horizontal { h, .. } => expr_ref_wf(h, elen),
        BulletMLNode::Vertical { v, .. } => expr_ref_wf(v, elen),
        BulletMLNode::Term(e) => expr_ref_wf(e, elen),
        BulletMLNode::Times(e) => expr_ref_wf(e, elen),
        BulletMLNode::Param(e) => expr_ref_wf(e, elen),
        _ => true,
    }
}

/// A compiled pattern document: an append-only arena of syntax nodes
/// addressed by stable `u32` handles, adjacency links stored alongside
/// the nodes, three label tables, and the compiled expression pool.
///
/// The arena is append-only and a node's parent must exist before the
/// node does, so a parent handle is always smaller than the handles of
/// its children and a sibling handle smaller than the handles of the
/// siblings after it; tree walks can lean on that ordering.
pub struct BulletML {
    /// The syntax node of each handle.
    pub nodes: Vec<BulletMLNode>,
    /// The parent handle of each node, `None` only for the root.
    pub parents: Vec<Option<u32>>,
    /// The first (oldest) child of each node.
    pub first_children: Vec<Option<u32>>,
    /// The last (youngest) child of each node.
    pub last_children: Vec<Option<u32>>,
    /// The sibling appended right after each node under the same parent.
    pub next_siblings: Vec<Option<u32>>,
    /// The handle of the document root.
    pub root: u32,
    /// Label table for bullet definitions; a later entry wins over an
    /// earlier one with the same label.
    pub bullet_refs: Vec<(String, u32)>,
    /// Label table for action definitions (later entry wins).
    pub action_refs: Vec<(String, u32)>,
    /// Label table for fire definitions (later entry wins).
    pub fire_refs: Vec<(String, u32)>,
    /// The compiled expression pool shared by the whole document.
    pub exprs: Vec<ExprNode>,
}

/// The handle every entry of a label table points at lies below `len`.
pub open spec fn label_table_wf(t: Seq<(String, u32)>, len: nat) -> bool {
    forall|i: int| 0 <= i < t.len() ==> (#[trigger] t[i]).1 < len
}

/// The handle of the last table entry carrying this label, if any:
/// a label declared twice resolves to the later declaration.
pub open spec fn spec_lookup(t: Seq<(String, u32)>, label: Seq<char>) -> Option<u32>
    decreases t.len(),
{
    if t.len() == 0 {
        None
    } else if t.last().0@ == label {
        Some(t.last().1)
    } else {
        spec_lookup(t.drop_last(), label)
    }
}

/// A measure that shrinks along a sibling chain.
pub open spec fn chain_measure(bml: BulletML, cur: Option<u32>) -> int {
    match cur {
        Some(c) => bml.spec_len() + 1 - c,
        None => 0,
    }
}

/// The handles of a node and its following siblings, in document order.
pub open spec fn spec_chain(bml: BulletML, cur: Option<u32>) -> Seq<u32>
    decreases chain_measure(bml, cur),
{
    match cur {
        None => Seq::empty(),
        Some(c) => {
            if c < bml.spec_len() {
                match bml.next_siblings@[c as int] {
                    Some(n) => {
                        if c < n <= bml.spec_len() {
                            seq![c] + spec_chain(bml, Some(n))
                        } else {
                            seq![c]
                        }
                    },
                    None => seq![c],
                }
            } else {
                Seq::empty()
            }
        },
    }
}

/// The children of `parent`, oldest first.
pub open spec fn spec_children(bml: BulletML, parent: u32) -> Seq<u32> {
    spec_chain(bml, bml.first_children@[parent as int])
}

/// A label declared again later wins: registering `(label, handle)` makes
/// every lookup of that label resolve to `handle`, and leaves every other
/// label's resolution unchanged.
pub proof fn lemma_later_declaration_wins(
    t: Seq<(String, u32)>,
    label: String,
    handle: u32,
    other: Seq<char>,
)
    ensures
        spec_lookup(t.push((label, handle)), label@) == Some(handle),
        other != label@ ==> spec_lookup(t.push((label, handle)), other) == spec_lookup(t, other),
{
    assert(t.push((label, handle)).last() == (label, handle));
    assert(t.push((label, handle)).drop_last() =~= t);
}

impl BulletML {
    /// How many nodes the arena holds.
    pub open spec fn spec_len(self) -> nat {
        self.nodes@.len()
    }

    /// The structural invariant of a document: all five per-node columns
    /// have the same length, every link stays inside the arena, parents
    /// come before their children, siblings are ordered by handle, the
    /// label tables point into the arena and every expression handle
    /// points into a well-formed pool.
    pub open spec fn wf(self) -> bool {
        &&& 1 <= self.spec_len() <= u32::MAX
        &&& self.parents@.len() == self.spec_len()
        &&& self.first_children@.len() == self.spec_len()
        &&& self.last_children@.len() == self.spec_len()
        &&& self.next_siblings@.len() == self.spec_len()
        &&& self.root == 0
        &&& forall|i: int|
            0 <= i < self.spec_len() ==> match #[trigger] self.parents@[i] {
                Some(p) => p < i,
                None => true,
            }
        &&& forall|i: int|
            0 <= i < self.spec_len() ==> match #[trigger] self.first_children@[i] {
                Some(c) => i < c < self.spec_len(),
                None => true,
            }
        &&& forall|i: int|
            0 <= i < self.spec_len() ==> match #[trigger] self.last_children@[i] {
                Some(c) => i < c < self.spec_len(),
                None => true,
            }
        &&& forall|i: int|
            0 <= i < self.spec_len() ==> match #[trigger] self.next_siblings@[i] {
                Some(s) => i < s < self.spec_len(),
                None => true,
            }
        &&& forall|i: int|
            0 <= i < self.spec_len() ==> ((#[trigger] self.first_children@[i]) is None
                <==> self.last_children@[i] is None)
        &&& forall|i: int|
            0 <= i < self.spec_len() ==> node_exprs_wf(
                #[trigger] self.nodes@[i],
                self.exprs@.len(),
            )
        &&& label_table_wf(self.bullet_refs@, self.spec_len())
        &&& label_table_wf(self.action_refs@, self.spec_len())
        &&& label_table_wf(self.fire_refs@, self.spec_len())
        &&& pool_wf(self.exprs@)
    }

    /// A fresh document holding only its root node.
    pub fn new(bml_type: Option<BulletMLType>) -> (r: BulletML)
        ensures
            r.wf(),
            r.spec_len() == 1,
            r.nodes@[0] == (BulletMLNode::BulletML { bml_type }),
            r.exprs@.len() == 0,
            r.bullet_refs@.len() == 0,
            r.action_refs@.len() == 0,
            r.fire_refs@.len() == 0,
    {
        BulletML {
            nodes: vec![BulletMLNode::BulletML { bml_type }],
            parents: vec![None],
            first_children: vec![None],
            last_children: vec![None],
            next_siblings: vec![None],
            root: 0,
            bullet_refs: Vec::new(),
            action_refs: Vec::new(),
            fire_refs: Vec::new(),
            exprs: Vec::new(),
        }
    }

    /// The coordinate-system tag of the document root.
    pub fn get_type(&self) -> (r: Option<BulletMLType>)
        requires
            self.wf(),
        ensures
            r == match self.nodes@[0] {
                BulletMLNode::BulletML { bml_type } => bml_type,
                _ => None::<BulletMLType>,
            },
    {
        match &self.nodes[0] {
            BulletMLNode::BulletML { bml_type } => *bml_type,
            _ => None,
        }
    }

    /// Appends one expression pool entry and hands back its handle, or
    /// `None` when the entry names an operand at or past its own slot or
    /// the pool is full.
    pub fn add_expr(&mut self, entry: ExprNode) -> (r: Option<u32>)
        ensures
            r is Some <==> old(self).exprs@.len() < u32::MAX && expr_node_wf(
                entry,
                old(self).exprs@.len() as int,
            ),
            match r {
                Some(h) => {
                    &&& h == old(self).exprs@.len()
                    &&& final(self).exprs@ == old(self).exprs@.push(entry)
                    &&& *final(self) == (BulletML { exprs: final(self).exprs, ..*old(self) })
                    &&& old(self).wf() ==> final(self).wf()
                },
                None => *final(self) == *old(self),
            },
    {
        let len = self.exprs.len();
        if len >= u32::MAX as usize {
            return None;
        }
        let ok = match entry {
            ExprNode::Lit(_) => true,
            ExprNode::Param(_) => true,
            ExprNode::Rank => true,
            ExprNode::Rand => true,
            ExprNode::Neg(e) => (e as usize) < len,
            ExprNode::Plus(l, r) => (l as usize) < len && (r as usize) < len,
            ExprNode::Minus(l, r) => (l as usize) < len && (r as usize) < len,
            ExprNode::Times(l, r) => (l as usize) < len && (r as usize) < len,
            ExprNode::Over(l, r) => (l as usize) < len && (r as usize) < len,
        };
        if !ok {
            return None;
        }
        self.exprs.push(entry);
        proof {
            if old(self).wf() {
                assert forall|i: int| 0 <= i < self.exprs@.len() implies expr_node_wf(
                    #[trigger] self.exprs@[i],
                    i,
                ) by {
                    if i < old(self).exprs@.len() {
                        assert(expr_node_wf(old(self).exprs@[i], i));
                    } else {
                        assert(self.exprs@[i] == entry);
                    }
                }
                assert forall|i: int| 0 <= i < self.nodes@.len() implies node_exprs_wf(
                    #[trigger] self.nodes@[i],
                    self.exprs@.len(),
                ) by {
                    assert(node_exprs_wf(self.nodes@[i], old(self).exprs@.len()));
                }
            }
        }
        Some(len as u32)
    }

    /// Appends one syntax node as the youngest child of `parent` and
    /// hands back its handle, or `None` when the parent does not exist,
    /// the arena is full, or the node names an expression outside the
    /// pool.
    pub fn add_node(&mut self, parent: u32, node: BulletMLNode) -> (r: Option<u32>)
        requires
            old(self).wf(),
        ensures
            final(self).wf(),
            final(self).exprs@ == old(self).exprs@,
            final(self).bullet_refs@ == old(self).bullet_refs@,
            final(self).action_refs@ == old(self).action_refs@,
            final(self).fire_refs@ == old(self).fire_refs@,
            r is Some <==> parent < old(self).spec_len() && old(self).spec_len() < u32::MAX
                && node_exprs_wf(node, old(self).exprs@.len()),
            match r {
                Some(h) => {
                    &&& h == old(self).spec_len()
                    &&& final(self).spec_len() == old(self).spec_len() + 1
                    &&& final(self).nodes@ == old(self).nodes@.push(node)
                    &&& final(self).parents@[h as int] == Some(parent)
                    &&& final(self).next_siblings@[h as int] is None
                    &&& final(self).first_children@[h as int] is None
                    &&& (old(self).first_children@[parent as int] is None
                        ==> final(self).first_children@[parent as int] == Some(h))
                    &&& (old(self).first_children@[parent as int] is Some
                        ==> final(self).first_children@[parent as int] == old(
                        self,
                    ).first_children@[parent as int])
                    &&& final(self).last_children@[parent as int] == Some(h)
                    &&& (old(self).last_children@[parent as int] matches Some(prev)
                        ==> final(self).next_siblings@[prev as int] == Some(h))
                    &&& forall|i: int|
                        0 <= i < old(self).spec_len() ==> #[trigger] final(self).parents@[i] == old(
                            self,
                        ).parents@[i]
                },
                None => *final(self) == *old(self),
            },
    {
        let len = self.nodes.len();
        if parent as usize >= len || len >= u32::MAX as usize {
            return None;
        }
        let elen = self.exprs.len();
        let ok = match &node {
            BulletMLNode::Wait(e) => expr_ok(e, elen),
            BulletMLNode::Direction { dir, .. } => expr_ok(dir, elen),
            BulletMLNode::Speed { spd, .. } => expr_ok(spd, elen),
            BulletMLNode::Horizontal { h, .. } => expr_ok(h, elen),
            BulletMLNode::Vertical { v, .. } => expr_ok(v, elen),
            BulletMLNode::Term(e) => expr_ok(e, elen),
            BulletMLNode::Times(e) => expr_ok(e, elen),
            BulletMLNode::Param(e) => expr_ok(e, elen),
            _ => true,
        };
        if !ok {
            return None;
        }
        let h = len as u32;
        self.nodes.push(node);
        self.parents.push(Some(parent));
        self.first_children.push(None);
        self.last_children.push(None);
        self.next_siblings.push(None);
        match self.last_children[parent as usize] {
            Some(prev) => {
                self.next_siblings[prev as usize] = Some(h);
            },
            None => {
                self.first_children[parent as usize] = Some(h);
            },
        }
        self.last_children[parent as usize] = Some(h);
        proof {
            let n = self.spec_len();
            assert forall|i: int| 0 <= i < n implies match #[trigger] self.parents@[i] {
                Some(p) => p < i,
                None => true,
            } by {
                if i < old(self).spec_len() {
                    assert(self.parents@[i] == old(self).parents@[i]);
                }
            }
            assert forall|i: int| 0 <= i < n implies match #[trigger] self.first_children@[i] {
                Some(c) => i < c < n,
                None => true,
            } by {
                if i < old(self).spec_len() && i != parent as int {
                    assert(self.first_children@[i] == old(self).first_children@[i]);
                }
            }
            assert forall|i: int| 0 <= i < n implies match #[trigger] self.last_children@[i] {
                Some(c) => i < c < n,
                None => true,
            } by {
                if i < old(self).spec_len() && i != parent as int {
                    assert(self.last_children@[i] == old(self).last_children@[i]);
                }
            }
            assert forall|i: int| 0 <= i < n implies match #[trigger] self.next_siblings@[i] {
                Some(s) => i < s < n,
                None => true,
            } by {
                if i < old(self).spec_len() {
                    if old(self).next_siblings@[i] != self.next_siblings@[i] {
                        assert(self.next_siblings@[i] == Some(h));
                    }
                }
            }
            assert forall|i: int|
                0 <= i < n implies ((#[trigger] self.first_children@[i]) is None
                <==> self.last_children@[i] is None) by {
                if i < old(self).spec_len() && i != parent as int {
                    assert(self.first_children@[i] == old(self).first_children@[i]);
                    assert(self.last_children@[i] == old(self).last_children@[i]);
                }
            }
            assert forall|i: int| 0 <= i < n implies node_exprs_wf(
                #[trigger] self.nodes@[i],
                self.exprs@.len(),
            ) by {
                if i < old(self).spec_len() {
                    assert(node_exprs_wf(old(self).nodes@[i], old(self).exprs@.len()));
                }
            }
            assert(label_table_wf(self.bullet_refs@, n)) by {
                assert forall|i: int|
                    0 <= i < self.bullet_refs@.len() implies (#[trigger] self.bullet_refs@[i]).1
                    < n by {
                    assert(self.bullet_refs@[i].1 < old(self).spec_len());
                }
            }
            assert(label_table_wf(self.action_refs@, n)) by {
                assert forall|i: int|
                    0 <= i < self.action_refs@.len() implies (#[trigger] self.action_refs@[i]).1
                    < n by {
                    assert(self.action_refs@[i].1 < old(self).spec_len());
                }
            }
            assert(label_table_wf(self.fire_refs@, n)) by {
                assert forall|i: int|
                    0 <= i < self.fire_refs@.len() implies (#[trigger] self.fire_refs@[i]).1
                    < n by {
                    assert(self.fire_refs@[i].1 < old(self).spec_len());
                }
            }
        }
        Some(h)
    }

    /// Records `handle` as the definition of a bullet label; a later
    /// registration of the same label wins over this one.
    pub fn set_bullet_label(&mut self, label: String, handle: u32)
        requires
            old(self).wf(),
            handle < old(self).spec_len(),
        ensures
            final(self).wf(),
            final(self).bullet_refs@ == old(self).bullet_refs@.push((label, handle)),
            *final(self) == (BulletML { bullet_refs: final(self).bullet_refs, ..*old(self) }),
    {
        self.bullet_refs.push((label, handle));
    }

    /// Records `handle` as the definition of an action label; a later
    /// registration of the same label wins over this one.
    pub fn set_action_label(&mut self, label: String, handle: u32)
        requires
            old(self).wf(),
            handle < old(self).spec_len(),
        ensures
            final(self).wf(),
            final(self).action_refs@ == old(self).action_refs@.push((label, handle)),
            *final(self) == (BulletML { action_refs: final(self).action_refs, ..*old(self) }),
    {
        self.action_refs.push((label, handle));
    }

    /// Records `handle` as the definition of a fire label; a later
    /// registration of the same label wins over this one.
    pub fn set_fire_label(&mut self, label: String, handle: u32)
        requires
            old(self).wf(),
            handle < old(self).spec_len(),
        ensures
            final(self).wf(),
            final(self).fire_refs@ == old(self).fire_refs@.push((label, handle)),
            *final(self) == (BulletML { fire_refs: final(self).fire_refs, ..*old(self) }),
    {
        self.fire_refs.push((label, handle));
    }

    /// How many nodes the arena holds.
    pub fn node_count(&self) -> (r: usize)
        ensures
            r == self.spec_len(),
    {
        self.nodes.len()
    }

    /// The syntax node behind a handle.
    pub fn node(&self, handle: u32) -> (r: &BulletMLNode)
        requires
            handle < self.spec_len(),
        ensures
            *r == self.nodes@[handle as int],
    {
        &self.nodes[handle as usize]
    }

    /// The parent of a node, `None` for the root.
    pub fn parent_of(&self, handle: u32) -> (r: Option<u32>)
        requires
            self.wf(),
            handle < self.spec_len(),
        ensures
            r == self.parents@[handle as int],
            r matches Some(p) ==> p < handle,
    {
        self.parents[handle as usize]
    }

    /// The first child of a node.
    pub fn first_child_of(&self, handle: u32) -> (r: Option<u32>)
        requires
            self.wf(),
            handle < self.spec_len(),
        ensures
            r == self.first_children@[handle as int],
            r matches Some(c) ==> handle < c < self.spec_len(),
    {
        self.first_children[handle as usize]
    }

    /// The sibling right after a node under the same parent.
    pub fn next_sibling_of(&self, handle: u32) -> (r: Option<u32>)
        requires
            self.wf(),
            handle < self.spec_len(),
        ensures
            r == self.next_siblings@[handle as int],
            r matches Some(s) ==> handle < s < self.spec_len(),
    {
        self.next_siblings[handle as usize]
    }

    /// The children of a node, oldest first.
    pub fn children_of(&self, handle: u32) -> (r: Vec<u32>)
        requires
            self.wf(),
            handle < self.spec_len(),
        ensures
            r@ == spec_children(*self, handle),
            forall|i: int| 0 <= i < r@.len() ==> #[trigger] r@[i] < self.spec_len(),
    {
        let mut out: Vec<u32> = Vec::new();
        let mut cur = self.first_child_of(handle);
        while cur.is_some()
            invariant
                self.wf(),
                match cur {
                    Some(c) => c < self.spec_len(),
                    None => true,
                },
                spec_children(*self, handle) == out@ + spec_chain(
                    *self,
                    cur,
                ),
                forall|i: int| 0 <= i < out@.len() ==> #[trigger] out@[i] < self.spec_len(),
            decreases chain_measure(*self, cur),
        {
            let c = cur.unwrap();
            proof {
                let chain = spec_chain(*self, cur);
                assert(chain == match self.next_siblings@[c as int] {
                    Some(nx) => seq![c] + spec_chain(*self, Some(nx)),
                    None => seq![c],
                });
                let rest = spec_chain(*self, self.next_siblings@[c as int]);
                assert(out@.push(c) =~= out@ + seq![c]);
                assert((out@ + seq![c]) + rest =~= out@ + (seq![c] + rest));
            }
            out.push(c);
            cur = self.next_sibling_of(c);
        }
        proof {
            assert(spec_chain(*self, None::<u32>) =~= Seq::<u32>::empty());
            assert(out@ + Seq::<u32>::empty() =~= out@);
        }
        out
    }

    /// Resolves a bullet label, later declarations winning.
    pub fn find_bullet(&self, label: &String) -> (r: Option<u32>)
        requires
            self.wf(),
        ensures
            r == spec_lookup(self.bullet_refs@, label@),
            r matches Some(h) ==> h < self.spec_len(),
    {
        find_label(&self.bullet_refs, label)
    }

    /// Resolves an action label, later declarations winning.
    pub fn find_action(&self, label: &String) -> (r: Option<u32>)
        requires
            self.wf(),
        ensures
            r == spec_lookup(self.action_refs@, label@),
            r matches Some(h) ==> h < self.spec_len(),
    {
        find_label(&self.action_refs, label)
    }

    /// Resolves a fire label, later declarations winning.
    pub fn find_fire(&self, label: &String) -> (r: Option<u32>)
        requires
            self.wf(),
        ensures
            r == spec_lookup(self.fire_refs@, label@),
            r matches Some(h) ==> h < self.spec_len(),
    {
        find_label(&self.fire_refs, label)
    }
}

/// Executable twin of `expr_ref_wf`.
fn expr_ok(e: &BulletMLExpression, elen: usize) -> (r: bool)
    ensures
        r == expr_ref_wf(*e, elen as nat),
{
    match e {
        BulletMLExpression::Const(_) => true,
        BulletMLExpression::Expr(h) => (*h as usize) < elen,
    }
}

/// Scans a label table from its end, so that the latest declaration of a
/// label wins.
fn find_label(table: &Vec<(String, u32)>, label: &String) -> (r: Option<u32>)
    ensures
        r == spec_lookup(table@, label@),
        r matches Some(h) ==> exists|i: int| 0 <= i < table@.len() && table@[i].1 == h,
{
    let mut i: usize = table.len();
    proof {
        assert(table@.take(i as int) =~= table@);
    }
    while i > 0
        invariant
            i <= table@.len(),
            spec_lookup(table@, label@) == spec_lookup(table@.take(i as int), label@),
        decreases i,
    {
        i = i - 1;
        let entry = &table[i];
        if entry.0 == *label {
            proof {
                assert(table@.take(i as int + 1).last() == table@[i as int]);
            }
            return Some(entry.1);
        }
        proof {
            assert(table@.take(i as int + 1).drop_last() =~= table@.take(i as int));
            assert(table@.take(i as int + 1).last() == table@[i as int]);
        }
    }
    proof {
        assert(table@.take(0) =~= Seq::<(String, u32)>::empty());
    }
    None
}

} // verus!
