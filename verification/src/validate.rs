//! Validation of a whole graph.
use crate::boundary::{EffectivePin, PinView};
use crate::diagnostic::{Diagnostic, Finding, Severity};
use crate::edge::{Edge, PinRef};
use crate::graph::Graph;
use crate::ids::GraphKind;
use crate::node::{Node, NodeKind};
use crate::order::{
    cyclic, dependency_order, every_node_settles_iff_acyclic, lemma_unsettled_members, settles,
    unsettled,
};
use crate::pin::PinType;
use crate::slots::{is_key_order, key_order_is_distinct, key_order_is_unique, NodeId};
use crate::text::{decimal_text, push_decimal};
use vstd::prelude::*;

verus! {

/// An error finding about an edge.
pub open spec fn edge_error(message: Seq<char>, edge: int) -> Finding {
    Finding { severity: Severity::Error, message, node: None, edge: Some(edge) }
}

/// An error finding about a node.
pub open spec fn node_error(message: Seq<char>, node: NodeId) -> Finding {
    Finding { severity: Severity::Error, message, node: Some(node), edge: None }
}

/// What is wrong with an edge, if anything: a missing end, a pin out of range,
/// or incompatible types, whichever comes first.
pub open spec fn edge_problem(
    kind: GraphKind,
    nodes: Map<NodeId, Node>,
    e: Edge,
) -> Option<Seq<char>> {
    if !nodes.contains_key(e.from.node) {
        Some("edge references missing source node"@)
    } else if !nodes.contains_key(e.to.node) {
        Some("edge references missing target target node"@)
    } else {
        let outputs = nodes[e.from.node].kind.outputs_in(kind);
        let inputs = nodes[e.to.node].kind.inputs_in(kind);
        if e.from.pin >= outputs.len() {
            Some("output pin "@ + decimal_text(e.from.pin as nat) + " out of range"@)
        } else if e.to.pin >= inputs.len() {
            Some("input pin "@ + decimal_text(e.to.pin as nat) + " out of range"@)
        } else if !PinType::compatible(outputs[e.from.pin as int].ty, inputs[e.to.pin as int].ty) {
            Some(
                "type mismatch: "@ + outputs[e.from.pin as int].ty.spelled() + " cannot feed "@
                    + inputs[e.to.pin as int].ty.spelled(),
            )
        } else {
            None
        }
    }
}

/// The findings about the first `k` edges.
pub open spec fn edge_findings(
    kind: GraphKind,
    nodes: Map<NodeId, Node>,
    edges: Seq<Edge>,
    k: int,
) -> Seq<Finding>
    decreases k,
{
    if k <= 0 {
        Seq::empty()
    } else {
        let rest = edge_findings(kind, nodes, edges, k - 1);
        match edge_problem(kind, nodes, edges[k - 1]) {
            Some(message) => rest.push(edge_error(message, k - 1)),
            None => rest,
        }
    }
}

/// How many of the first `k` edges feed an input pin.
pub open spec fn incoming(edges: Seq<Edge>, to: PinRef, k: int) -> nat
    decreases k,
{
    if k <= 0 {
        0
    } else {
        incoming(edges, to, k - 1) + (if edges[k - 1].to == to {
            1nat
        } else {
            0nat
        })
    }
}

/// The findings about input pins with more than one edge, each at the first edge
/// that feeds it.
pub open spec fn crowding_findings(edges: Seq<Edge>, k: int) -> Seq<Finding>
    decreases k,
{
    if k <= 0 {
        Seq::empty()
    } else {
        let rest = crowding_findings(edges, k - 1);
        let to = edges[k - 1].to;
        let count = incoming(edges, to, edges.len() as int);
        if incoming(edges, to, k - 1) == 0 && count > 1 {
            rest.push(
                node_error(
                    "input pin "@ + decimal_text(to.pin as nat) + " has "@ + decimal_text(count)
                        + " incoming edges (max 1)"@,
                    to.node,
                ),
            )
        } else {
            rest
        }
    }
}

/// Whether an input pin of a node is fed by some edge.
pub open spec fn pin_fed(edges: Seq<Edge>, id: NodeId, pin: int) -> bool {
    exists|i: int|
        0 <= i < edges.len() && (#[trigger] edges[i]).to.node == id && edges[i].to.pin == pin
}

/// The findings about the first `k` input pins of a node.
pub open spec fn pin_findings(
    edges: Seq<Edge>,
    id: NodeId,
    pins: Seq<PinView>,
    k: int,
) -> Seq<Finding>
    decreases k,
{
    if k <= 0 {
        Seq::empty()
    } else {
        let rest = pin_findings(edges, id, pins, k - 1);
        if pins[k - 1].required && !pin_fed(edges, id, k - 1) {
            rest.push(
                node_error(
                    "required input '"@ + pins[k - 1].name + "' is not connected"@,
                    id,
                ),
            )
        } else {
            rest
        }
    }
}

/// The findings about unconnected required inputs of listed nodes.
pub open spec fn input_findings(
    kind: GraphKind,
    nodes: Map<NodeId, Node>,
    edges: Seq<Edge>,
    keys: Seq<NodeId>,
) -> Seq<Finding>
    decreases keys.len(),
{
    if keys.len() == 0 {
        Seq::empty()
    } else {
        let pins = nodes[keys.last()].kind.inputs_in(kind);
        input_findings(kind, nodes, edges, keys.drop_last()) + pin_findings(
            edges,
            keys.last(),
            pins,
            pins.len() as int,
        )
    }
}

/// The finding about cycles: how many nodes are on or downstream of one, at the
/// first of them.
pub open spec fn cycle_findings(blocked: Seq<NodeId>) -> Seq<Finding> {
    if blocked.len() == 0 {
        Seq::empty()
    } else {
        seq![
            node_error(
                "graph contains a cycle involving "@ + decimal_text(blocked.len()) + " node(s)"@,
                blocked[0],
            ),
        ]
    }
}

/// Whether a node writes foliage.
pub open spec fn writes_foliage(node: Node) -> bool {
    node.kind is PaintDensity || node.kind is ScatterPlace
}

/// Whether a graph of `kind` meets the rules of its kind: a detail graph with
/// any node has one that writes foliage.
pub open spec fn meets_kind_rules(kind: GraphKind, nodes: Map<NodeId, Node>) -> bool {
    kind == GraphKind::Detail ==> nodes == Map::<NodeId, Node>::empty() || exists|id: NodeId|
        nodes.contains_key(id) && writes_foliage(#[trigger] nodes[id])
}

/// The finding about the rules of the graph's kind.
pub open spec fn kind_findings(kind: GraphKind, nodes: Map<NodeId, Node>) -> Seq<Finding> {
    if meets_kind_rules(kind, nodes) {
        Seq::empty()
    } else {
        seq![
            Finding {
                severity: Severity::Error,
                message: "DetailGraph has no PaintDensity or ScatterPlace terminal output"@,
                node: None,
                edge: None,
            },
        ]
    }
}

/// Every finding about a graph, its nodes listed in key order.
pub open spec fn findings(
    kind: GraphKind,
    nodes: Map<NodeId, Node>,
    edges: Seq<Edge>,
    keys: Seq<NodeId>,
) -> Seq<Finding> {
    edge_findings(kind, nodes, edges, edges.len() as int) + crowding_findings(
        edges,
        edges.len() as int,
    ) + input_findings(kind, nodes, edges, keys) + cycle_findings(unsettled(nodes, edges, keys))
        + kind_findings(kind, nodes)
}

/// The findings a list of diagnostics reports.
pub open spec fn reported(ds: Seq<Diagnostic>) -> Seq<Finding> {
    ds.map_values(|d: Diagnostic| d@)
}

/// Whether a graph can be evaluated: its edges are well typed, no input has two,
/// every required input has one, nothing is cyclic, and the kind's rules hold.
pub open spec fn evaluable(kind: GraphKind, nodes: Map<NodeId, Node>, edges: Seq<Edge>) -> bool {
    &&& forall|i: int|
        0 <= i < edges.len() ==> edge_problem(kind, nodes, #[trigger] edges[i]) is None
    &&& forall|i: int, j: int|
        0 <= i < j < edges.len() ==> (#[trigger] edges[i]).to != (#[trigger] edges[j]).to
    &&& forall|id: NodeId, p: int|
        #![trigger nodes[id].kind.inputs_in(kind)[p]]
        nodes.contains_key(id) && 0 <= p < nodes[id].kind.inputs_in(kind).len()
            && nodes[id].kind.inputs_in(kind)[p].required ==> pin_fed(edges, id, p)
    &&& !cyclic(nodes, edges)
    &&& meets_kind_rules(kind, nodes)
}

/// Whether every finding in a list is an error.
pub open spec fn all_errors(fs: Seq<Finding>) -> bool {
    forall|i: int| 0 <= i < fs.len() ==> (#[trigger] fs[i]).severity == Severity::Error
}

proof fn lemma_edge_findings(
    kind: GraphKind,
    nodes: Map<NodeId, Node>,
    edges: Seq<Edge>,
    k: int,
)
    requires
        0 <= k <= edges.len(),
    ensures
        all_errors(edge_findings(kind, nodes, edges, k)),
        edge_findings(kind, nodes, edges, k).len() == 0 <==> forall|i: int|
            0 <= i < k ==> edge_problem(kind, nodes, #[trigger] edges[i]) is None,
    decreases k,
{
    if k > 0 {
        lemma_edge_findings(kind, nodes, edges, k - 1);
    }
}

proof fn lemma_incoming(edges: Seq<Edge>, to: PinRef, k: int)
    requires
        0 <= k <= edges.len(),
    ensures
        incoming(edges, to, k) > 0 <==> exists|i: int| 0 <= i < k && (#[trigger] edges[i]).to == to,
        incoming(edges, to, k) > 1 <==> exists|i: int, j: int|
            0 <= i < j < k && (#[trigger] edges[i]).to == to && (#[trigger] edges[j]).to == to,
    decreases k,
{
    if k > 0 {
        lemma_incoming(edges, to, k - 1);
        let e = edges[k - 1];
        if incoming(edges, to, k) > 1 && incoming(edges, to, k - 1) <= 1 {
            let i = choose|i: int| 0 <= i < k - 1 && (#[trigger] edges[i]).to == to;
            assert(edges[i].to == to && e.to == to);
        }
        if exists|i: int, j: int|
            0 <= i < j < k && (#[trigger] edges[i]).to == to && (#[trigger] edges[j]).to == to {
            let (i, j) = choose|i: int, j: int|
                0 <= i < j < k && (#[trigger] edges[i]).to == to && (#[trigger] edges[j]).to == to;
            if j == k - 1 {
                assert(0 <= i < k - 1 && edges[i].to == to);
            }
        }
    }
}

proof fn lemma_crowding_findings(edges: Seq<Edge>, k: int)
    requires
        0 <= k <= edges.len(),
    ensures
        all_errors(crowding_findings(edges, k)),
        crowding_findings(edges, k).len() == 0 <==> forall|i: int|
            0 <= i < k ==> incoming(edges, (#[trigger] edges[i]).to, edges.len() as int) <= 1,
    decreases k,
{
    if k > 0 {
        lemma_crowding_findings(edges, k - 1);
        let to = edges[k - 1].to;
        lemma_incoming(edges, to, k - 1);
        if incoming(edges, to, k - 1) > 0 && incoming(edges, to, edges.len() as int) > 1 {
            let i = choose|i: int| 0 <= i < k - 1 && (#[trigger] edges[i]).to == to;
            assert(incoming(edges, edges[i].to, edges.len() as int) > 1);
        }
    }
}

proof fn lemma_pin_findings(edges: Seq<Edge>, id: NodeId, pins: Seq<PinView>, k: int)
    requires
        0 <= k <= pins.len(),
    ensures
        all_errors(pin_findings(edges, id, pins, k)),
        pin_findings(edges, id, pins, k).len() == 0 <==> forall|p: int|
            0 <= p < k && (#[trigger] pins[p]).required ==> pin_fed(edges, id, p),
    decreases k,
{
    if k > 0 {
        lemma_pin_findings(edges, id, pins, k - 1);
    }
}

proof fn lemma_input_findings(
    kind: GraphKind,
    nodes: Map<NodeId, Node>,
    edges: Seq<Edge>,
    keys: Seq<NodeId>,
)
    ensures
        all_errors(input_findings(kind, nodes, edges, keys)),
        input_findings(kind, nodes, edges, keys).len() == 0 <==> forall|k: int, p: int|
            #![trigger nodes[keys[k]].kind.inputs_in(kind)[p]]
            0 <= k < keys.len() && 0 <= p < nodes[keys[k]].kind.inputs_in(kind).len()
                && nodes[keys[k]].kind.inputs_in(kind)[p].required ==> pin_fed(edges, keys[k], p),
    decreases keys.len(),
{
    if keys.len() > 0 {
        let shorter = keys.drop_last();
        lemma_input_findings(kind, nodes, edges, shorter);
        let id = keys.last();
        let pins = nodes[id].kind.inputs_in(kind);
        lemma_pin_findings(edges, id, pins, pins.len() as int);
        let rest = input_findings(kind, nodes, edges, shorter);
        let own = pin_findings(edges, id, pins, pins.len() as int);
        let all = input_findings(kind, nodes, edges, keys);
        assert(all == rest + own);
        assert(all.len() == 0 <==> rest.len() == 0 && own.len() == 0);
        assert forall|k: int| 0 <= k < shorter.len() implies shorter[k] == keys[k] by {}
        if all.len() == 0 {
            assert forall|k: int, p: int|
                #![trigger nodes[keys[k]].kind.inputs_in(kind)[p]]
                0 <= k < keys.len() && 0 <= p < nodes[keys[k]].kind.inputs_in(kind).len()
                    && nodes[keys[k]].kind.inputs_in(kind)[p].required implies pin_fed(
                edges,
                keys[k],
                p,
            ) by {
                if k < keys.len() - 1 {
                    assert(nodes[shorter[k]].kind.inputs_in(kind)[p].required);
                } else {
                    assert(pins[p].required);
                }
            }
        } else if rest.len() > 0 {
            let (k, p) = choose|k: int, p: int|
                #![trigger nodes[shorter[k]].kind.inputs_in(kind)[p]]
                0 <= k < shorter.len() && 0 <= p < nodes[shorter[k]].kind.inputs_in(kind).len()
                    && nodes[shorter[k]].kind.inputs_in(kind)[p].required && !pin_fed(
                    edges,
                    shorter[k],
                    p,
                );
            assert(nodes[keys[k]].kind.inputs_in(kind)[p].required);
        } else {
            let p = choose|p: int|
                0 <= p < pins.len() && (#[trigger] pins[p]).required && !pin_fed(edges, id, p);
            assert(nodes[keys[keys.len() - 1]].kind.inputs_in(kind)[p].required);
        }
    }
}

/// Everything validation reports is an error.
pub proof fn every_finding_is_an_error(
    kind: GraphKind,
    nodes: Map<NodeId, Node>,
    edges: Seq<Edge>,
    keys: Seq<NodeId>,
)
    ensures
        all_errors(findings(kind, nodes, edges, keys)),
{
    lemma_edge_findings(kind, nodes, edges, edges.len() as int);
    lemma_crowding_findings(edges, edges.len() as int);
    lemma_input_findings(kind, nodes, edges, keys);
}

/// Validation reports nothing exactly when the graph can be evaluated.
pub proof fn no_findings_iff_evaluable(
    kind: GraphKind,
    nodes: Map<NodeId, Node>,
    edges: Seq<Edge>,
    keys: Seq<NodeId>,
)
    requires
        is_key_order(nodes, keys),
    ensures
        findings(kind, nodes, edges, keys).len() == 0 <==> evaluable(kind, nodes, edges),
{
    let n = edges.len() as int;
    lemma_edge_findings(kind, nodes, edges, n);
    lemma_crowding_findings(edges, n);
    assert(crowding_findings(edges, n).len() == 0 <==> forall|i: int, j: int|
        0 <= i < j < edges.len() ==> (#[trigger] edges[i]).to != (#[trigger] edges[j]).to) by {
        if crowding_findings(edges, n).len() == 0 {
            assert forall|i: int, j: int| 0 <= i < j < edges.len() implies (#[trigger] edges[i]).to
                != (#[trigger] edges[j]).to by {
                lemma_incoming(edges, edges[i].to, n);
            }
        } else {
            let i = choose|i: int|
                0 <= i < n && incoming(edges, (#[trigger] edges[i]).to, n) > 1;
            lemma_incoming(edges, edges[i].to, n);
        }
    }
    lemma_input_findings(kind, nodes, edges, keys);
    assert(input_findings(kind, nodes, edges, keys).len() == 0 <==> forall|id: NodeId, p: int|
        #![trigger nodes[id].kind.inputs_in(kind)[p]]
        nodes.contains_key(id) && 0 <= p < nodes[id].kind.inputs_in(kind).len()
            && nodes[id].kind.inputs_in(kind)[p].required ==> pin_fed(edges, id, p)) by {
        if input_findings(kind, nodes, edges, keys).len() == 0 {
            assert forall|id: NodeId, p: int|
                #![trigger nodes[id].kind.inputs_in(kind)[p]]
                nodes.contains_key(id) && 0 <= p < nodes[id].kind.inputs_in(kind).len()
                    && nodes[id].kind.inputs_in(kind)[p].required implies pin_fed(edges, id, p) by {
                assert(keys.contains(id));
                let k = choose|k: int| 0 <= k < keys.len() && keys[k] == id;
                assert(nodes[keys[k]].kind.inputs_in(kind)[p].required);
            }
        }
    }
    key_order_is_distinct(nodes, keys);
    every_node_settles_iff_acyclic(nodes, edges);
    lemma_unsettled_members(nodes, edges, keys);
    let blocked = unsettled(nodes, edges, keys);
    if blocked.len() > 0 {
        assert(blocked.contains(blocked[0]));
        assert(nodes.contains_key(blocked[0]));
    }
    if cyclic(nodes, edges) {
        let v = choose|v: NodeId| #[trigger]
            nodes.contains_key(v) && !settles(nodes, edges, v);
        assert(blocked.contains(v));
    }
}

fn message_of(a: &str, n: usize, b: &str) -> (r: String)
    ensures
        r@ == a@ + decimal_text(n as nat) + b@,
{
    let mut s = String::from_str(a);
    push_decimal(&mut s, n);
    s.append(b);
    s
}

impl Graph {
    fn check_edge(&self, e: Edge) -> (r: Option<String>)
        ensures
            match r {
                Some(m) => edge_problem(self.kind, self.nodes@, e) == Some(m@),
                None => edge_problem(self.kind, self.nodes@, e) is None,
            },
    {
        let from_node = match self.nodes.get(e.from.node) {
            Some(n) => n,
            None => {
                return Some(String::from_str("edge references missing source node"));
            },
        };
        let to_node = match self.nodes.get(e.to.node) {
            Some(n) => n,
            None => {
                return Some(String::from_str("edge references missing target target node"));
            },
        };
        let outputs = from_node.kind.effective_outputs_in(self.kind);
        let inputs = to_node.kind.effective_inputs_in(self.kind);
        if e.from.pin as usize >= outputs.len() {
            return Some(message_of("output pin ", e.from.pin as usize, " out of range"));
        }
        if e.to.pin as usize >= inputs.len() {
            return Some(message_of("input pin ", e.to.pin as usize, " out of range"));
        }
        let out_ty = outputs[e.from.pin as usize].ty;
        let in_ty = inputs[e.to.pin as usize].ty;
        proof {
            assert(from_node.kind.outputs_in(self.kind)[e.from.pin as int]
                == outputs@[e.from.pin as int]@);
            assert(to_node.kind.inputs_in(self.kind)[e.to.pin as int]
                == inputs@[e.to.pin as int]@);
        }
        if !PinType::is_compatible(out_ty, in_ty) {
            let mut s = String::from_str("type mismatch: ");
            s.append(out_ty.name());
            s.append(" cannot feed ");
            s.append(in_ty.name());
            return Some(s);
        }
        None
    }

    fn check_edges(&self, diags: &mut Vec<Diagnostic>)
        ensures
            reported(final(diags)@) == reported(old(diags)@) + edge_findings(
                self.kind,
                self.nodes@,
                self.edges@,
                self.edges@.len() as int,
            ),
    {
        let ghost before = reported(diags@);
        assert(before =~= before + Seq::<Finding>::empty());
        let mut k: usize = 0;
        while k < self.edges.len()
            invariant
                k <= self.edges@.len(),
                reported(diags@) == before + edge_findings(
                    self.kind,
                    self.nodes@,
                    self.edges@,
                    k as int,
                ),
            decreases self.edges@.len() - k,
        {
            let ghost held = diags@;
            if let Some(message) = self.check_edge(self.edges[k]) {
                let d = Diagnostic::error(message).with_edge(k);
                diags.push(d);
                assert(reported(diags@) =~= reported(held).push(d@));
            }
            assert(reported(diags@) =~= before + edge_findings(
                self.kind,
                self.nodes@,
                self.edges@,
                k + 1,
            ));
            k = k + 1;
        }
    }

    fn count_incoming(&self, to: PinRef, k: usize) -> (r: usize)
        requires
            k <= self.edges@.len(),
        ensures
            r == incoming(self.edges@, to, k as int),
            r <= k,
    {
        let mut n: usize = 0;
        let mut i: usize = 0;
        while i < k
            invariant
                i <= k <= self.edges@.len(),
                n == incoming(self.edges@, to, i as int),
                n <= i,
            decreases k - i,
        {
            if self.edges[i].to == to {
                n = n + 1;
            }
            i = i + 1;
        }
        n
    }

    fn check_crowding(&self, diags: &mut Vec<Diagnostic>)
        ensures
            reported(final(diags)@) == reported(old(diags)@) + crowding_findings(
                self.edges@,
                self.edges@.len() as int,
            ),
    {
        let ghost before = reported(diags@);
        assert(before =~= before + Seq::<Finding>::empty());
        let mut k: usize = 0;
        while k < self.edges.len()
            invariant
                k <= self.edges@.len(),
                reported(diags@) == before + crowding_findings(self.edges@, k as int),
            decreases self.edges@.len() - k,
        {
            let ghost held = diags@;
            let to = self.edges[k].to;
            let count: usize = self.count_incoming(to, self.edges.len());
            if self.count_incoming(to, k) == 0 && count > 1 {
                let mut s = message_of("input pin ", to.pin as usize, " has ");
                push_decimal(&mut s, count);
                s.append(" incoming edges (max 1)");
                let d = Diagnostic::error(s).with_node(to.node);
                diags.push(d);
                assert(reported(diags@) =~= reported(held).push(d@));
            }
            assert(reported(diags@) =~= before + crowding_findings(self.edges@, k + 1));
            k = k + 1;
        }
    }

    fn is_fed(&self, id: NodeId, pin: usize) -> (r: bool)
        ensures
            r == pin_fed(self.edges@, id, pin as int),
    {
        let mut k: usize = 0;
        while k < self.edges.len()
            invariant
                k <= self.edges@.len(),
                forall|i: int|
                    0 <= i < k ==> !((#[trigger] self.edges@[i]).to.node == id
                        && self.edges@[i].to.pin == pin),
            decreases self.edges@.len() - k,
        {
            let e = self.edges[k];
            if e.to.node == id && e.to.pin as usize == pin {
                return true;
            }
            k = k + 1;
        }
        false
    }

    fn check_pins(&self, id: NodeId, pins: &Vec<EffectivePin<'_>>, diags: &mut Vec<Diagnostic>)
        ensures
            reported(final(diags)@) == reported(old(diags)@) + pin_findings(
                self.edges@,
                id,
                crate::boundary::effective_views(pins@),
                pins@.len() as int,
            ),
    {
        let ghost before = reported(diags@);
        let ghost views = crate::boundary::effective_views(pins@);
        assert(before =~= before + Seq::<Finding>::empty());
        let mut p: usize = 0;
        while p < pins.len()
            invariant
                p <= pins@.len(),
                views == crate::boundary::effective_views(pins@),
                reported(diags@) == before + pin_findings(self.edges@, id, views, p as int),
            decreases pins@.len() - p,
        {
            let ghost held = diags@;
            assert(views[p as int] == pins@[p as int]@);
            if pins[p].required && !self.is_fed(id, p) {
                let mut s = String::from_str("required input '");
                s.append(pins[p].name);
                s.append("' is not connected");
                let d = Diagnostic::error(s).with_node(id);
                diags.push(d);
                assert(reported(diags@) =~= reported(held).push(d@));
            }
            assert(reported(diags@) =~= before + pin_findings(self.edges@, id, views, p + 1));
            p = p + 1;
        }
    }

    fn check_inputs(&self, keys: &Vec<NodeId>, diags: &mut Vec<Diagnostic>)
        requires
            is_key_order(self.nodes@, keys@),
        ensures
            reported(final(diags)@) == reported(old(diags)@) + input_findings(
                self.kind,
                self.nodes@,
                self.edges@,
                keys@,
            ),
    {
        let ghost before = reported(diags@);
        assert(before =~= before + Seq::<Finding>::empty());
        let mut k: usize = 0;
        while k < keys.len()
            invariant
                k <= keys@.len(),
                is_key_order(self.nodes@, keys@),
                reported(diags@) == before + input_findings(
                    self.kind,
                    self.nodes@,
                    self.edges@,
                    keys@.take(k as int),
                ),
            decreases keys@.len() - k,
        {
            assert(keys@.take(k + 1).drop_last() =~= keys@.take(k as int));
            assert(self.nodes@.contains_key(keys@[k as int]));
            if let Some(n) = self.nodes.get(keys[k]) {
                let pins = n.kind.effective_inputs_in(self.kind);
                self.check_pins(keys[k], &pins, diags);
            }
            assert(reported(diags@) =~= before + input_findings(
                self.kind,
                self.nodes@,
                self.edges@,
                keys@.take(k + 1),
            ));
            k = k + 1;
        }
        assert(keys@.take(k as int) =~= keys@);
    }

    fn has_terminal(&self, keys: &Vec<NodeId>) -> (r: bool)
        requires
            is_key_order(self.nodes@, keys@),
        ensures
            r == exists|id: NodeId|
                self.nodes@.contains_key(id) && writes_foliage(#[trigger] self.nodes@[id]),
    {
        let mut k: usize = 0;
        while k < keys.len()
            invariant
                k <= keys@.len(),
                is_key_order(self.nodes@, keys@),
                forall|i: int| 0 <= i < k ==> !writes_foliage(self.nodes@[#[trigger] keys@[i]]),
            decreases keys@.len() - k,
        {
            assert(self.nodes@.contains_key(keys@[k as int]));
            if let Some(n) = self.nodes.get(keys[k]) {
                let hit = match &n.kind {
                    NodeKind::PaintDensity(_) => true,
                    NodeKind::ScatterPlace(_) => true,
                    _ => false,
                };
                if hit {
                    return true;
                }
            }
            k = k + 1;
        }
        assert forall|id: NodeId| self.nodes@.contains_key(id) implies !writes_foliage(
            #[trigger] self.nodes@[id],
        ) by {
            assert(keys@.contains(id));
        }
        false
    }

    fn validate_kind_rules(&self, keys: &Vec<NodeId>, diags: &mut Vec<Diagnostic>)
        requires
            is_key_order(self.nodes@, keys@),
        ensures
            reported(final(diags)@) == reported(old(diags)@) + kind_findings(
                self.kind,
                self.nodes@,
            ),
    {
        let ghost before = reported(diags@);
        if self.kind == GraphKind::Detail && !self.nodes.is_empty() && !self.has_terminal(keys) {
            let ghost held = diags@;
            let d = Diagnostic::error(
                String::from_str("DetailGraph has no PaintDensity or ScatterPlace terminal output"),
            );
            diags.push(d);
            assert(reported(diags@) =~= reported(held).push(d@));
        }
        assert(reported(diags@) =~= before + kind_findings(self.kind, self.nodes@));
    }

    fn check_cycles(&self, diags: &mut Vec<Diagnostic>)
        ensures
            forall|keys: Seq<NodeId>|
                is_key_order(self.nodes@, keys) ==> reported(final(diags)@) == reported(old(diags)@)
                    + cycle_findings(#[trigger] unsettled(self.nodes@, self.edges@, keys)),
    {
        let ghost before = reported(diags@);
        match dependency_order(&self.nodes, &self.edges) {
            Ok(_) => {
                assert forall|keys: Seq<NodeId>| is_key_order(self.nodes@, keys) implies reported(
                    diags@,
                ) == before + cycle_findings(#[trigger] unsettled(self.nodes@, self.edges@, keys)) by {
                    let b = unsettled(self.nodes@, self.edges@, keys);
                    lemma_unsettled_members(self.nodes@, self.edges@, keys);
                    if b.len() > 0 {
                        assert(b.contains(b[0]));
                        assert(keys.contains(b[0]));
                    }
                    assert(reported(diags@) =~= before + cycle_findings(b));
                }
            },
            Err(blocked) => {
                let d = Diagnostic::error(
                    message_of("graph contains a cycle involving ", blocked.len(), " node(s)"),
                ).with_node(blocked[0]);
                diags.push(d);
                assert forall|keys: Seq<NodeId>| is_key_order(self.nodes@, keys) implies reported(
                    diags@,
                ) == before + cycle_findings(#[trigger] unsettled(self.nodes@, self.edges@, keys)) by {
                    let found = choose|k: Seq<NodeId>| #[trigger]
                        is_key_order(self.nodes@, k) && blocked@ == unsettled(
                            self.nodes@,
                            self.edges@,
                            k,
                        );
                    key_order_is_unique(self.nodes@, keys, found);
                    assert(reported(diags@) =~= before + cycle_findings(blocked@));
                }
            },
        }
    }

    /// Validate the whole graph. Every finding is reported; none means the graph
    /// is evaluable.
    ///
    /// Checks edge integrity and types, at most one edge per input pin, all
    /// required inputs connected, acyclicity, and the rules of the graph's kind.
    pub fn validate(&self) -> (r: Vec<Diagnostic>)
        ensures
            exists|keys: Seq<NodeId>| #[trigger]
                is_key_order(self.nodes@, keys) && reported(r@) == findings(
                    self.kind,
                    self.nodes@,
                    self.edges@,
                    keys,
                ),
    {
        let keys = self.nodes.keys();
        let mut diags: Vec<Diagnostic> = Vec::new();
        assert(reported(diags@) =~= Seq::<Finding>::empty());
        self.check_edges(&mut diags);
        self.check_crowding(&mut diags);
        self.check_inputs(&keys, &mut diags);
        self.check_cycles(&mut diags);
        self.validate_kind_rules(&keys, &mut diags);
        proof {
            assert(reported(diags@) =~= findings(self.kind, self.nodes@, self.edges@, keys@));
        }
        diags
    }

    /// True if validation reports any error.
    pub fn has_errors(&self) -> (r: bool)
        ensures
            r == !evaluable(self.kind, self.nodes@, self.edges@),
    {
        let diags = self.validate();
        proof {
            let keys = choose|keys: Seq<NodeId>| #[trigger]
                is_key_order(self.nodes@, keys) && reported(diags@) == findings(
                    self.kind,
                    self.nodes@,
                    self.edges@,
                    keys,
                );
            no_findings_iff_evaluable(self.kind, self.nodes@, self.edges@, keys);
            every_finding_is_an_error(self.kind, self.nodes@, self.edges@, keys);
            if diags@.len() > 0 {
                assert(reported(diags@)[0] == diags@[0]@);
            }
        }
        let mut k: usize = 0;
        while k < diags.len()
            invariant
                k <= diags@.len(),
                diags@.len() == 0 <==> evaluable(self.kind, self.nodes@, self.edges@),
                forall|i: int| 0 <= i < k ==> (#[trigger] diags@[i]).severity != Severity::Error,
            decreases diags@.len() - k,
        {
            if diags[k].severity == Severity::Error {
                return true;
            }
            k = k + 1;
        }
        false
    }
}

} // verus!
