//! The agent's hardware description: an arena of peripheral nodes addressed by
//! generation-checked keys, the roots of its graph, and the plan for carrying out a
//! list of instructions on it.

use crate::instruction::Instruction;
use slotmap::{DefaultKey, Key, KeyData, SlotMap};
use vstd::prelude::*;

verus! {

/// A device that can be read: fills a buffer entirely, reading again as needed.
pub trait Input {
    type Error;

    fn read_input(&mut self, buf: &mut [u8]) -> Result<(), Self::Error>;
}

/// A device that can be written.
pub trait Output {
    type Error;

    fn write(&mut self, bytes: &[u8]) -> Result<(), Self::Error>;
}

/// Two to the 32nd: the weight of the generation in a key's 64-bit encoding.
pub const GENERATION_UNIT: u64 = 0x1_0000_0000;

/// A peripheral's key: a slot index and the generation of that slot. Keys handed out
/// by an arena always carry an odd generation.
#[derive(Clone, Copy, Debug, Default, PartialEq, Eq, Structural, Hash)]
pub struct PeripheralKey {
    pub idx: u32,
    pub version: u32,
}

/// The key that a 64-bit key encoding stands for: generation above, index below.
pub open spec fn key_of_ffi(ffi: u64) -> PeripheralKey {
    PeripheralKey { idx: (ffi % GENERATION_UNIT) as u32, version: (ffi / GENERATION_UNIT) as u32 }
}

/// Whether a 64-bit key encoding carries an odd generation.
pub open spec fn odd_generation(ffi: u64) -> bool {
    (ffi / GENERATION_UNIT) % 2 == 1
}

impl PeripheralKey {
    /// The key's 64-bit encoding.
    pub fn to_ffi(&self) -> (r: u64)
        ensures
            key_of_ffi(r) == *self,
            odd_generation(r) == (self.version % 2 == 1),
    {
        let r = (self.version as u64) * GENERATION_UNIT + (self.idx as u64);
        assert(r / GENERATION_UNIT == self.version as u64 && r % GENERATION_UNIT == self.idx as u64)
            by (nonlinear_arith)
            requires
                r == (self.version as u64) * GENERATION_UNIT + (self.idx as u64),
                self.idx < GENERATION_UNIT,
                GENERATION_UNIT == 0x1_0000_0000,
        ;
        r
    }

    /// The key a 64-bit encoding stands for.
    pub fn from_ffi(ffi: u64) -> (r: Self)
        ensures
            r == key_of_ffi(ffi),
    {
        PeripheralKey { idx: (ffi % GENERATION_UNIT) as u32, version: (ffi / GENERATION_UNIT) as u32 }
    }
}

/// What a peripheral can do: be read, or be written.
#[derive(Clone, Copy, Debug, PartialEq, Eq, Structural)]
pub enum Peripheral {
    Input,
    Output,
}

impl Peripheral {
    pub fn is_input(&self) -> (r: bool)
        ensures
            r == (*self == Peripheral::Input),
    {
        matches!(self, Peripheral::Input)
    }

    pub fn is_output(&self) -> (r: bool)
        ensures
            r == (*self == Peripheral::Output),
    {
        matches!(self, Peripheral::Output)
    }
}

/// A node of the hardware graph: a peripheral and the peripherals it connects to.
/// The links describe the topology; carrying out instructions does not consult them.
#[derive(Clone, Debug)]
pub struct PeripheralNode {
    pub peripheral: Peripheral,
    pub points_to: Option<Vec<PeripheralKey>>,
}

/// The keys a node links to, in the order they were added.
pub open spec fn node_links(n: PeripheralNode) -> Seq<PeripheralKey> {
    match n.points_to {
        Some(v) => v@,
        None => Seq::empty(),
    }
}

/// Two nodes with the same capability and the same links.
pub open spec fn same_node(a: PeripheralNode, b: PeripheralNode) -> bool {
    &&& a.peripheral == b.peripheral
    &&& (a.points_to is Some) == (b.points_to is Some)
    &&& node_links(a) == node_links(b)
}

/// Two node maps with the same keys and, under each key, the same node.
pub open spec fn same_nodes(a: Map<PeripheralKey, PeripheralNode>, b: Map<PeripheralKey, PeripheralNode>) -> bool {
    &&& a.dom() == b.dom()
    &&& forall|k: PeripheralKey| #[trigger] a.contains_key(k) ==> same_node(a[k], b[k])
}

impl PeripheralNode {
    /// A node without links.
    pub fn new(peripheral: Peripheral) -> (r: Self)
        ensures
            r.peripheral == peripheral,
            r.points_to is None,
    {
        PeripheralNode { peripheral, points_to: None }
    }
}

impl From<Peripheral> for PeripheralNode {
    fn from(value: Peripheral) -> Self {
        PeripheralNode::new(value)
    }
}

impl vstd::std_specs::convert::FromSpecImpl<Peripheral> for PeripheralNode {
    open spec fn obeys_from_spec() -> bool {
        true
    }

    open spec fn from_spec(v: Peripheral) -> Self {
        PeripheralNode { peripheral: v, points_to: None }
    }
}

/// The arena of peripheral nodes: slotmap's `SlotMap`, held opaque because Verus
/// refuses its declaration. It is seen only through `arena_nodes` and the wrappers
/// below, none of which removes a node.
#[verifier::external_body]
pub struct PeripheralArena {
    slots: SlotMap<DefaultKey, PeripheralNode>,
}

/// The nodes an arena holds, by key.
pub uninterp spec fn arena_nodes(m: PeripheralArena) -> Map<PeripheralKey, PeripheralNode>;

/// Relies on slotmap's `SlotMap::new`: a new slot map is empty.
#[verifier::external_body]
fn arena_new() -> (r: PeripheralArena)
    ensures
        arena_nodes(r).is_empty(),
{
    PeripheralArena { slots: SlotMap::new() }
}

/// Relies on slotmap's `SlotMap::insert`: the value goes under a key no live value
/// has, with an odd generation; it panics only when the slot vector holds `u32::MAX`
/// slots, one more than the values when none is free.
#[verifier::external_body]
fn arena_insert(m: &mut PeripheralArena, node: PeripheralNode) -> (ffi: u64)
    requires
        arena_nodes(*old(m)).dom().finite(),
        arena_nodes(*old(m)).len() + 1 < u32::MAX,
    ensures
        odd_generation(ffi),
        !arena_nodes(*old(m)).contains_key(key_of_ffi(ffi)),
        arena_nodes(*final(m)) == arena_nodes(*old(m)).insert(key_of_ffi(ffi), node),
{
    m.slots.insert(node).data().as_ffi()
}

/// Relies on slotmap's `SlotMap::get`: the value under a key whose generation matches
/// its slot's, which for a key with an odd generation means a live key.
#[verifier::external_body]
fn arena_get(m: &PeripheralArena, ffi: u64) -> (r: Option<&PeripheralNode>)
    requires
        odd_generation(ffi),
    ensures
        match r {
            Some(n) => arena_nodes(*m).contains_key(key_of_ffi(ffi)) && *n == arena_nodes(
                *m,
            )[key_of_ffi(ffi)],
            None => !arena_nodes(*m).contains_key(key_of_ffi(ffi)),
        },
{
    m.slots.get(KeyData::from_ffi(ffi).into())
}

/// Relies on slotmap's `SlotMap::get_mut`: the value under a live key, to change in place.
#[verifier::external_body]
fn arena_get_mut(m: &mut PeripheralArena, ffi: u64) -> (r: Option<&mut PeripheralNode>)
    requires
        odd_generation(ffi),
    ensures
        match r {
            Some(n) => arena_nodes(*old(m)).contains_key(key_of_ffi(ffi)) && *n == arena_nodes(
                *old(m),
            )[key_of_ffi(ffi)] && arena_nodes(*final(m)) == arena_nodes(*old(m)).insert(
                key_of_ffi(ffi),
                *final(n),
            ),
            None => !arena_nodes(*old(m)).contains_key(key_of_ffi(ffi)) && arena_nodes(*final(m))
                == arena_nodes(*old(m)),
        },
{
    m.slots.get_mut(KeyData::from_ffi(ffi).into())
}

/// Relies on slotmap's `Clone for SlotMap`: every slot is copied with its generation
/// and each value cloned, so the same keys are live; a node's derived clone copies its
/// capability and a vector with the same links.
#[verifier::external_body]
fn arena_clone(m: &PeripheralArena) -> (r: PeripheralArena)
    ensures
        same_nodes(arena_nodes(r), arena_nodes(*m)),
{
    PeripheralArena { slots: m.slots.clone() }
}

/// Relies on slotmap's `SlotMap::keys`: every live key, each once.
#[verifier::external_body]
fn arena_keys(m: &PeripheralArena) -> (r: Vec<u64>)
    ensures
        r@.no_duplicates(),
        forall|i: int|
            0 <= i < r@.len() ==> odd_generation(#[trigger] r@[i]) && arena_nodes(*m).contains_key(
                key_of_ffi(r@[i]),
            ),
        forall|k: PeripheralKey|
            #[trigger] arena_nodes(*m).contains_key(k) ==> exists|i: int|
                0 <= i < r@.len() && key_of_ffi(#[trigger] r@[i]) == k,
{
    m.slots.keys().map(|k| k.data().as_ffi()).collect()
}

/// An arena's nodes are finitely many and every key has an odd generation.
pub open spec fn arena_wf(nodes: Map<PeripheralKey, PeripheralNode>) -> bool {
    &&& nodes.dom().finite()
    &&& forall|k: PeripheralKey| #[trigger] nodes.contains_key(k) ==> k.version % 2 == 1
}

/// Confirms the arena's own facts, which hold of every arena: finitely many nodes,
/// each under a key with an odd generation. Walks the live keys once.
fn confirm_arena(m: &PeripheralArena)
    ensures
        arena_wf(arena_nodes(*m)),
{
    let keys = arena_keys(m);
    proof {
        let s = keys@.map_values(|f: u64| key_of_ffi(f));
        assert forall|k: PeripheralKey| arena_nodes(*m).dom().contains(k) implies s.to_set().contains(k) by {
            let i = choose|i: int| 0 <= i < keys@.len() && key_of_ffi(#[trigger] keys@[i]) == k;
            assert(s[i] == k);
        }
        vstd::seq_lib::seq_to_set_is_finite(s);
        vstd::set_lib::lemma_set_subset_finite(s.to_set(), arena_nodes(*m).dom());
        assert forall|k: PeripheralKey| #[trigger] arena_nodes(*m).contains_key(k) implies k.version % 2 == 1 by {
            let i = choose|i: int| 0 <= i < keys@.len() && key_of_ffi(#[trigger] keys@[i]) == k;
            assert(odd_generation(keys@[i]));
            assert(keys@[i] / GENERATION_UNIT < 0x1_0000_0000);
        }
    }
}

/// Distinct encodings with odd generations stand for distinct keys.
proof fn lemma_key_of_ffi_injective(a: u64, b: u64)
    requires
        a != b,
    ensures
        key_of_ffi(a) != key_of_ffi(b),
{
    assert(a == (a / GENERATION_UNIT) * GENERATION_UNIT + a % GENERATION_UNIT) by (nonlinear_arith)
        requires GENERATION_UNIT == 0x1_0000_0000;
    assert(b == (b / GENERATION_UNIT) * GENERATION_UNIT + b % GENERATION_UNIT) by (nonlinear_arith)
        requires GENERATION_UNIT == 0x1_0000_0000;
}

/// The keys of the arena whose node has the given capability, each once.
fn keys_with(m: &PeripheralArena, want: Peripheral) -> (r: Vec<PeripheralKey>)
    ensures
        r@.no_duplicates(),
        forall|k: PeripheralKey|
            r@.contains(k) <==> (arena_nodes(*m).contains_key(k) && arena_nodes(*m)[k].peripheral
                == want),
{
    let keys = arena_keys(m);
    let mut r: Vec<PeripheralKey> = Vec::new();
    let mut i: usize = 0;
    while i < keys.len()
        invariant
            0 <= i <= keys@.len(),
            keys@.no_duplicates(),
            forall|j: int|
                0 <= j < keys@.len() ==> odd_generation(#[trigger] keys@[j]) && arena_nodes(
                    *m,
                ).contains_key(key_of_ffi(keys@[j])),
            r@.no_duplicates(),
            forall|k: PeripheralKey|
                r@.contains(k) <==> (exists|j: int|
                    0 <= j < i && key_of_ffi(#[trigger] keys@[j]) == k && arena_nodes(*m)[k].peripheral
                        == want),
        decreases keys@.len() - i,
    {
        let ffi = keys[i];
        let ghost k = key_of_ffi(ffi);
        match arena_get(m, ffi) {
            Some(node) => {
                if node.peripheral == want {
                    proof {
                        assert forall|j: int| 0 <= j < i implies key_of_ffi(#[trigger] keys@[j]) != k by {
                            lemma_key_of_ffi_injective(keys@[j], ffi);
                        }
                    }
                    let ghost before = r@;
                    r.push(PeripheralKey::from_ffi(ffi));
                    proof {
                        assert(!before.contains(k));
                        assert forall|a: int, b: int|
                            0 <= a < r@.len() && 0 <= b < r@.len() && a != b implies r@[a] != r@[b] by {
                            if a == before.len() {
                                assert(r@[b] == before[b]);
                            } else if b == before.len() {
                                assert(r@[a] == before[a]);
                            }
                        }
                        assert forall|x: PeripheralKey| r@.contains(x) <==> (exists|j: int|
                            0 <= j < i + 1 && key_of_ffi(#[trigger] keys@[j]) == x && arena_nodes(*m)[x].peripheral
                                == want) by {
                            if r@.contains(x) {
                                let p = choose|p: int| 0 <= p < r@.len() && r@[p] == x;
                                if p < before.len() {
                                    assert(before.contains(x));
                                } else {
                                    assert(key_of_ffi(keys@[i as int]) == x);
                                }
                            }
                            if exists|j: int| 0 <= j < i + 1 && key_of_ffi(#[trigger] keys@[j]) == x && arena_nodes(*m)[x].peripheral == want {
                                let j = choose|j: int| 0 <= j < i + 1 && key_of_ffi(#[trigger] keys@[j]) == x && arena_nodes(*m)[x].peripheral == want;
                                if j < i {
                                    assert(before.contains(x));
                                    assert(r@[before.index_of(x)] == x);
                                } else {
                                    assert(r@[before.len() as int] == x);
                                }
                            }
                        }
                    }
                }
            },
            None => {},
        }
        i += 1;
    }
    proof {
        assert forall|k: PeripheralKey| r@.contains(k) <==> (arena_nodes(*m).contains_key(k) && arena_nodes(*m)[k].peripheral == want) by {
            if arena_nodes(*m).contains_key(k) && arena_nodes(*m)[k].peripheral == want {
                let j = choose|j: int| 0 <= j < keys@.len() && key_of_ffi(#[trigger] keys@[j]) == k;
                assert(key_of_ffi(keys@[j]) == k);
            }
        }
    }
    r
}

/// The agent's hardware: the roots of its peripheral graph and the arena of all nodes.
/// Built once, then only read.
pub struct Body {
    /// Peripherals added without a parent
    pub root: Vec<PeripheralKey>,
    /// Every peripheral node
    pub peripheral_graph: PeripheralArena,
}

/// One step of carrying out an instruction list on a body.
#[derive(Clone, Copy, Debug, PartialEq, Eq)]
pub enum Step {
    /// Write the payload to the output peripheral, then wait
    Write { node: PeripheralKey, payload: [u8; 4], wait_ms: u32 },
    /// The target is missing or cannot be written: report it, then wait
    Skip { node: PeripheralKey, wait_ms: u32 },
}

/// The step that carries out one instruction on a body with these nodes.
pub open spec fn step_for(nodes: Map<PeripheralKey, PeripheralNode>, i: Instruction) -> Step {
    if nodes.contains_key(i.node) && nodes[i.node].peripheral == Peripheral::Output {
        Step::Write { node: i.node, payload: i.instructions, wait_ms: i.lasts_for_ms }
    } else {
        Step::Skip { node: i.node, wait_ms: i.lasts_for_ms }
    }
}

impl Body {
    /// The nodes, by key.
    pub open spec fn nodes(&self) -> Map<PeripheralKey, PeripheralNode> {
        arena_nodes(self.peripheral_graph)
    }

    pub open spec fn wf(&self) -> bool {
        &&& arena_wf(self.nodes())
        &&& forall|i: int| 0 <= i < self.root@.len() ==> self.nodes().contains_key(#[trigger] self.root@[i])
    }

    /// A body with no peripherals.
    pub fn new() -> (r: Self)
        ensures
            r.wf(),
            r.nodes().is_empty(),
            r.root@ == Seq::<PeripheralKey>::empty(),
    {
        Body { root: Vec::new(), peripheral_graph: arena_new() }
    }

    /// Confirms the arena's own facts, which every arena has: finitely many nodes,
    /// each under a key with an odd generation.
    pub fn confirm_arena(&self)
        ensures
            arena_wf(self.nodes()),
    {
        confirm_arena(&self.peripheral_graph);
    }

    /// Whether the body is well formed: every root is a live key.
    pub fn check_wf(&self) -> (r: bool)
        ensures
            r == self.wf(),
    {
        self.confirm_arena();
        let mut i: usize = 0;
        while i < self.root.len()
            invariant
                0 <= i <= self.root@.len(),
                arena_wf(self.nodes()),
                forall|j: int| 0 <= j < i ==> self.nodes().contains_key(#[trigger] self.root@[j]),
            decreases self.root@.len() - i,
        {
            let k = self.root[i];
            if k.version % 2 == 0 {
                return false;
            }
            match arena_get(&self.peripheral_graph, k.to_ffi()) {
                Some(_) => {},
                None => return false,
            }
            i += 1;
        }
        true
    }

    /// The keys of every input node, each once, in no particular order.
    pub fn inputs(&self) -> (r: Vec<PeripheralKey>)
        ensures
            r@.no_duplicates(),
            forall|k: PeripheralKey|
                r@.contains(k) <==> (self.nodes().contains_key(k) && self.nodes()[k].peripheral
                    == Peripheral::Input),
    {
        keys_with(&self.peripheral_graph, Peripheral::Input)
    }

    /// The keys of every output node, each once, in no particular order.
    pub fn outputs(&self) -> (r: Vec<PeripheralKey>)
        ensures
            r@.no_duplicates(),
            forall|k: PeripheralKey|
                r@.contains(k) <==> (self.nodes().contains_key(k) && self.nodes()[k].peripheral
                    == Peripheral::Output),
    {
        keys_with(&self.peripheral_graph, Peripheral::Output)
    }

    /// The node under a key, if the key is live.
    pub fn get_by_id(&self, id: PeripheralKey) -> (r: Option<&PeripheralNode>)
        requires
            arena_wf(self.nodes()),
        ensures
            match r {
                Some(n) => self.nodes().contains_key(id) && *n == self.nodes()[id],
                None => !self.nodes().contains_key(id),
            },
    {
        if id.version % 2 == 0 {
            return None;
        }
        arena_get(&self.peripheral_graph, id.to_ffi())
    }

    /// The node under a key, to change in place, if the key is live.
    pub fn get_by_id_mut(&mut self, id: PeripheralKey) -> (r: Option<&mut PeripheralNode>)
        requires
            arena_wf(old(self).nodes()),
        ensures
            final(self).root == old(self).root,
            match r {
                Some(n) => old(self).nodes().contains_key(id) && *n == old(self).nodes()[id]
                    && final(self).nodes() == old(self).nodes().insert(id, *final(n)),
                None => !old(self).nodes().contains_key(id) && final(self).nodes() == old(self).nodes(),
            },
    {
        if id.version % 2 == 0 {
            return None;
        }
        arena_get_mut(&mut self.peripheral_graph, id.to_ffi())
    }

    /// A copy of the body: the same roots, and the same node under every key.
    pub fn snapshot(&self) -> (r: Body)
        ensures
            r.root@ == self.root@,
            same_nodes(r.nodes(), self.nodes()),
            self.wf() ==> r.wf(),
    {
        let mut root: Vec<PeripheralKey> = Vec::new();
        let mut i: usize = 0;
        while i < self.root.len()
            invariant
                0 <= i <= self.root@.len(),
                root@ == self.root@.subrange(0, i as int),
            decreases self.root@.len() - i,
        {
            root.push(self.root[i]);
            i += 1;
            assert(root@ =~= self.root@.subrange(0, i as int));
        }
        assert(root@ =~= self.root@);
        Body { root, peripheral_graph: arena_clone(&self.peripheral_graph) }
    }

    /// The steps that carry out `instructions` in order: each one whose target is a live
    /// output node writes its payload, every other one is skipped; each step then waits
    /// for the instruction's duration.
    pub fn plan_execution(&self, instructions: &[Instruction]) -> (r: Vec<Step>)
        ensures
            r@.len() == instructions@.len(),
            forall|i: int| 0 <= i < r@.len() ==> r@[i] == step_for(self.nodes(), #[trigger] instructions@[i]),
    {
        self.confirm_arena();
        let mut r: Vec<Step> = Vec::new();
        let mut i: usize = 0;
        while i < instructions.len()
            invariant
                arena_wf(self.nodes()),
                0 <= i <= instructions@.len(),
                r@.len() == i,
                forall|j: int| 0 <= j < i ==> r@[j] == step_for(self.nodes(), #[trigger] instructions@[j]),
            decreases instructions@.len() - i,
        {
            let ins = instructions[i];
            let step = match self.get_by_id(ins.node) {
                Some(node) => {
                    if node.peripheral.is_output() {
                        Step::Write { node: ins.node, payload: ins.instructions, wait_ms: ins.lasts_for_ms }
                    } else {
                        Step::Skip { node: ins.node, wait_ms: ins.lasts_for_ms }
                    }
                },
                None => Step::Skip { node: ins.node, wait_ms: ins.lasts_for_ms },
            };
            r.push(step);
            i += 1;
        }
        r
    }
}

impl Default for Body {
    fn default() -> (r: Self)
        ensures
            r.wf(),
            r.nodes().is_empty(),
            r.root@ == Seq::<PeripheralKey>::empty(),
    {
        Body::new()
    }
}

/// Builds a body: root nodes, and nodes linked from nodes already added.
pub struct Builder {
    root: Vec<PeripheralKey>,
    graph: PeripheralArena,
    count: usize,
}

impl Builder {
    pub closed spec fn roots(&self) -> Seq<PeripheralKey> {
        self.root@
    }

    pub closed spec fn nodes(&self) -> Map<PeripheralKey, PeripheralNode> {
        arena_nodes(self.graph)
    }

    pub closed spec fn wf(&self) -> bool {
        &&& arena_wf(self.nodes())
        &&& forall|i: int| 0 <= i < self.roots().len() ==> self.nodes().contains_key(#[trigger] self.roots()[i])
        &&& self.count == self.nodes().len()
    }

    /// How many nodes the builder holds.
    pub fn node_count(&self) -> (r: usize)
        requires
            self.wf(),
        ensures
            r == self.nodes().len(),
    {
        self.count
    }

    /// A builder with no nodes.
    pub fn new() -> (r: Self)
        ensures
            r.wf(),
            r.nodes().is_empty(),
            r.roots() == Seq::<PeripheralKey>::empty(),
    {
        Builder { root: Vec::new(), graph: arena_new(), count: 0 }
    }

    /// The root keys added so far.
    pub fn root_keys(&self) -> (r: &[PeripheralKey])
        ensures
            r@ == self.roots(),
    {
        self.root.as_slice()
    }

    /// Adds a node without a parent: it gets a fresh key, which joins the roots.
    pub fn with_node(self, node: Peripheral) -> (r: Self)
        requires
            self.wf(),
            self.nodes().len() + 1 < u32::MAX,
        ensures
            r.wf(),
            exists|k: PeripheralKey|
                !self.nodes().contains_key(k) && r.roots() == self.roots().push(k) && r.nodes()
                    == self.nodes().insert(k, PeripheralNode { peripheral: node, points_to: None }),
    {
        let ghost old_nodes = self.nodes();
        let ghost old_roots = self.roots();
        let mut b = self;
        let fresh = PeripheralNode::from(node);
        let ffi = arena_insert(&mut b.graph, fresh);
        let id = PeripheralKey::from_ffi(ffi);
        b.root.push(id);
        b.count = b.count + 1;
        proof {
            assert(b.nodes() == old_nodes.insert(id, PeripheralNode { peripheral: node, points_to: None }));
            assert forall|i: int| 0 <= i < b.roots().len() implies b.nodes().contains_key(#[trigger] b.roots()[i]) by {
                if i < old_roots.len() {
                    assert(b.roots()[i] == old_roots[i]);
                }
            }
        }
        b
    }

    /// Adds a node linked from `connected_to`, which must already be in the builder:
    /// the new node gets a fresh key, appended to the parent's links.
    pub fn add_node_to(&mut self, node: Peripheral, connected_to: PeripheralKey)
        requires
            old(self).wf(),
            old(self).nodes().contains_key(connected_to),
            old(self).nodes().len() + 1 < u32::MAX,
        ensures
            final(self).wf(),
            final(self).roots() == old(self).roots(),
            exists|k: PeripheralKey|
                #![trigger final(self).nodes()[k]]
                !old(self).nodes().contains_key(k) && k != connected_to && final(self).nodes().dom()
                    == old(self).nodes().dom().insert(k) && final(self).nodes()[k] == (PeripheralNode {
                    peripheral: node,
                    points_to: None,
                }) && final(self).nodes()[connected_to].peripheral == old(self).nodes()[connected_to].peripheral
                    && node_links(final(self).nodes()[connected_to]) == node_links(
                    old(self).nodes()[connected_to],
                ).push(k) && forall|j: PeripheralKey|
                    j != k && j != connected_to && old(self).nodes().contains_key(j) ==> final(self).nodes()[j] == old(self).nodes()[j],
    {
        let ghost n0 = self.nodes();
        let fresh = PeripheralNode::new(node);
        let ffi = arena_insert(&mut self.graph, fresh);
        let id = PeripheralKey::from_ffi(ffi);
        let ghost n1 = self.nodes();
        assert(n1.contains_key(connected_to));
        self.count = self.count + 1;
        let parent_ffi = connected_to.to_ffi();
        match arena_get_mut(&mut self.graph, parent_ffi) {
            Some(parent) => {
                match &mut parent.points_to {
                    Some(nodes) => nodes.push(id),
                    None => {
                        parent.points_to = Some(vec![id]);
                    },
                }
            },
            None => {},
        }
        proof {
            let n2 = self.nodes();
            assert(n2.dom() =~= n0.dom().insert(id));
            assert(node_links(n2[connected_to]) =~= node_links(n0[connected_to]).push(id));
            assert(self.roots() == old(self).roots());
            assert forall|i: int| 0 <= i < self.roots().len() implies self.nodes().contains_key(#[trigger] self.roots()[i]) by {
                assert(old(self).nodes().contains_key(old(self).roots()[i]));
            }
            assert(n2[id] == (PeripheralNode { peripheral: node, points_to: None }));
        }
    }

    /// The finished body.
    pub fn build(self) -> (r: Body)
        requires
            self.wf(),
        ensures
            r.wf(),
            r.root@ == self.roots(),
            r.nodes() == self.nodes(),
    {
        let r = Body { root: self.root, peripheral_graph: self.graph };
        assert forall|i: int| 0 <= i < r.root@.len() implies r.nodes().contains_key(#[trigger] r.root@[i]) by {
            assert(self.nodes().contains_key(self.roots()[i]));
        }
        r
    }
}

impl Default for Builder {
    fn default() -> (r: Self)
        ensures
            r.wf(),
            r.nodes().is_empty(),
            r.roots() == Seq::<PeripheralKey>::empty(),
    {
        Builder::new()
    }
}

/// Why a body description could not be built.
#[derive(Clone, Copy, Debug, PartialEq, Eq, Structural)]
pub enum DescriptionError {
    /// More nodes than an arena can hold
    TooMany,
    /// Node `node` hangs from root `parent`, which is not among the roots described before it
    UnknownParent { node: usize, parent: usize },
}

/// How many of the first `j` nodes of a description are roots.
pub open spec fn roots_before(d: Seq<(Peripheral, Option<usize>)>, j: int) -> int
    decreases j,
{
    if j <= 0 {
        0
    } else {
        roots_before(d, j - 1) + if d[j - 1].1 is None {
            1int
        } else {
            0int
        }
    }
}

/// How many of the first `j` nodes of a description hang from root `i`.
pub open spec fn children_before(d: Seq<(Peripheral, Option<usize>)>, j: int, i: int) -> int
    decreases j,
{
    if j <= 0 {
        0
    } else {
        children_before(d, j - 1, i) + match d[j - 1].1 {
            Some(p) => if p as int == i {
                1int
            } else {
                0int
            },
            None => 0int,
        }
    }
}

/// Node `j` is a root, or hangs from a root described before it.
pub open spec fn parent_ok(d: Seq<(Peripheral, Option<usize>)>, j: int) -> bool {
    match d[j].1 {
        Some(p) => p < roots_before(d, j),
        None => true,
    }
}

/// The error a description that fits in an arena gets, if any: its first node whose
/// parent is not a root described before it.
pub open spec fn first_bad_parent(d: Seq<(Peripheral, Option<usize>)>) -> Option<DescriptionError> {
    if exists|j: int| 0 <= j < d.len() && !parent_ok(d, j) {
        let j = choose|j: int| 0 <= j < d.len() && !parent_ok(d, j) && forall|k: int| 0 <= k < j ==> parent_ok(d, k);
        Some(DescriptionError::UnknownParent { node: j as usize, parent: d[j].1->0 })
    } else {
        None
    }
}

proof fn lemma_roots_before_monotone(d: Seq<(Peripheral, Option<usize>)>, a: int, b: int)
    requires
        0 <= a <= b,
    ensures
        roots_before(d, a) <= roots_before(d, b),
    decreases b - a,
{
    if a < b {
        lemma_roots_before_monotone(d, a, b - 1);
    }
}

/// Nodes whose parents all come before them have no child hanging from a root index
/// at or past the number of roots described so far.
proof fn lemma_no_children_yet(d: Seq<(Peripheral, Option<usize>)>, j: int, i: int)
    requires
        0 <= j <= d.len(),
        forall|k: int| 0 <= k < j ==> parent_ok(d, k),
        i >= roots_before(d, j),
    ensures
        children_before(d, j, i) == 0,
    decreases j,
{
    if j > 0 {
        lemma_roots_before_monotone(d, j - 1, j);
        lemma_no_children_yet(d, j - 1, i);
        assert(parent_ok(d, j - 1));
    }
}

impl Body {
    /// Builds the body a description stands for: node by node, a root, or a node
    /// hanging from the root of the given index among those described before it.
    #[verifier::rlimit(60)]
    pub fn from_description(d: &[(Peripheral, Option<usize>)]) -> (r: Result<Body, DescriptionError>)
        ensures
            d@.len() + 1 >= u32::MAX ==> r == Err::<Body, DescriptionError>(DescriptionError::TooMany),
            d@.len() + 1 < u32::MAX ==> match first_bad_parent(d@) {
                Some(e) => r == Err::<Body, DescriptionError>(e),
                None => r is Ok,
            },
            match r {
                Ok(body) => {
                    &&& body.wf()
                    &&& body.nodes().len() == d@.len()
                    &&& body.root@.len() == roots_before(d@, d@.len() as int)
                    &&& forall|j: int| 0 <= j < d@.len() && (#[trigger] d@[j]).1 is None
                        ==> body.nodes()[body.root@[roots_before(d@, j)]].peripheral == d@[j].0
                    &&& forall|i: int| 0 <= i < body.root@.len()
                        ==> node_links(body.nodes()[#[trigger] body.root@[i]]).len() == children_before(d@, d@.len() as int, i)
                },
                Err(_) => true,
            },
    {
        if d.len() >= 0xFFFF_FFFE {
            return Err(DescriptionError::TooMany);
        }
        let mut b = Builder::new();
        let mut j: usize = 0;
        while j < d.len()
            invariant
                0 <= j <= d@.len(),
                d@.len() + 1 < u32::MAX,
                b.wf(),
                b.nodes().len() == j,
                b.roots().len() == roots_before(d@, j as int),
                b.roots().no_duplicates(),
                forall|k: int| 0 <= k < j ==> parent_ok(d@, k),
                forall|k: int| 0 <= k < j && (#[trigger] d@[k]).1 is None
                    ==> b.nodes()[b.roots()[roots_before(d@, k)]].peripheral == d@[k].0,
                forall|i: int| 0 <= i < b.roots().len()
                    ==> node_links(b.nodes()[#[trigger] b.roots()[i]]).len() == children_before(d@, j as int, i),
            decreases d@.len() - j,
        {
            let (kind, parent) = d[j];
            let ghost n0 = b.nodes();
            let ghost r0 = b.roots();
            let ghost b0 = b;
            assert(b0.wf());
            proof {
                lemma_roots_before_monotone(d@, j as int, j as int + 1);
                assert forall|k: int| 0 <= k < j && (#[trigger] d@[k]).1 is None implies roots_before(d@, k) < r0.len() by {
                    lemma_roots_before_monotone(d@, k + 1, j as int);
                }
            }
            match parent {
                None => {
                    b = b.with_node(kind);
                    proof {
                        let k = b.roots()[r0.len() as int];
                        assert(b.roots() == r0.push(k));
                        assert(!n0.contains_key(k));
                        assert(b.nodes() == n0.insert(k, PeripheralNode { peripheral: kind, points_to: None }));
                        assert forall|a: int, c: int| 0 <= a < b.roots().len() && 0 <= c < b.roots().len() && a != c
                            implies b.roots()[a] != b.roots()[c] by {
                            if a < r0.len() && c < r0.len() {
                            } else if a < r0.len() {
                                assert(n0.contains_key(r0[a]));
                            } else {
                                assert(n0.contains_key(r0[c]));
                            }
                        }
                        assert forall|i: int| 0 <= i < b.roots().len() implies node_links(b.nodes()[#[trigger] b.roots()[i]]).len()
                            == children_before(d@, j as int + 1, i) by {
                            if i < r0.len() {
                                assert(n0.contains_key(r0[i]));
                                assert(b.roots()[i] == r0[i]);
                            } else {
                                lemma_no_children_yet(d@, j as int, i);
                            }
                        }
                        assert forall|q: int| 0 <= q < j + 1 && (#[trigger] d@[q]).1 is None
                            implies b.nodes()[b.roots()[roots_before(d@, q)]].peripheral == d@[q].0 by {
                            if q < j {
                                lemma_roots_before_monotone(d@, q + 1, j as int);
                                lemma_roots_before_monotone(d@, 0, q);
                                let x = roots_before(d@, q);
                                assert(0 <= x < r0.len());
                                assert(b0.nodes().contains_key(b0.roots()[x]));
                                assert(n0.contains_key(r0[roots_before(d@, q)]));
                                assert(b.roots()[roots_before(d@, q)] == r0[roots_before(d@, q)]);
                            }
                        }
                    }
                },
                Some(p) => {
                    let roots = b.root_keys();
                    if p >= roots.len() {
                        proof {
                            assert(!parent_ok(d@, j as int));
                            let c = choose|c: int| 0 <= c < d@.len() && !parent_ok(d@, c) && forall|k: int| 0 <= k < c ==> parent_ok(d@, k);
                            if c < j {
                            } else if c > j {
                                assert(parent_ok(d@, j as int));
                            }
                        }
                        return Err(DescriptionError::UnknownParent { node: j, parent: p });
                    }
                    let key = roots[p];
                    b.add_node_to(kind, key);
                    proof {
                        assert(b.roots() == r0);
                        assert(n0.contains_key(key));
                        let k = choose|k: PeripheralKey| #![trigger b.nodes()[k]]
                            !n0.contains_key(k) && k != key && b.nodes().dom() == n0.dom().insert(k)
                            && b.nodes()[k] == (PeripheralNode { peripheral: kind, points_to: None })
                            && b.nodes()[key].peripheral == n0[key].peripheral
                            && node_links(b.nodes()[key]) == node_links(n0[key]).push(k)
                            && forall|x: PeripheralKey| x != k && x != key && n0.contains_key(x) ==> b.nodes()[x] == n0[x];
                        assert(b.nodes().dom().len() == n0.dom().len() + 1);
                        assert forall|i: int| 0 <= i < b.roots().len() implies node_links(b.nodes()[#[trigger] b.roots()[i]]).len()
                            == children_before(d@, j as int + 1, i) by {
                            assert(n0.contains_key(r0[i]));
                            if i != p {
                                assert(r0[i] != r0[p as int]);
                            }
                        }
                        assert forall|q: int| 0 <= q < j + 1 && (#[trigger] d@[q]).1 is None
                            implies b.nodes()[b.roots()[roots_before(d@, q)]].peripheral == d@[q].0 by {
                            lemma_roots_before_monotone(d@, q + 1, j as int);
                            lemma_roots_before_monotone(d@, 0, q);
                            let x = roots_before(d@, q);
                            assert(0 <= x < r0.len());
                            assert(b0.nodes().contains_key(b0.roots()[x]));
                            assert(n0.contains_key(r0[roots_before(d@, q)]));
                        }
                    }
                },
            }
            j += 1;
        }
        proof {
            assert(!exists|q: int| 0 <= q < d@.len() && !parent_ok(d@, q));
        }
        Ok(b.build())
    }
}

} // verus!
