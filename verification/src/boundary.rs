//! Typed boundary declarations: the named, typed inputs and outputs a graph
//! exposes to the nodes that reference it.
use crate::pin::PinType;
use crate::text::same_text;
use vstd::prelude::*;

verus! {

/// What a pin is to the graph, with its name as characters.
pub struct PinView {
    /// Pin name.
    pub name: Seq<char>,
    /// Pin type.
    pub ty: PinType,
    /// Whether a connection is required for validity (input pins only).
    pub required: bool,
}

/// One named, typed port on a graph's boundary.
///
/// `name` is how consumers reference the port. `description` is documentation
/// for authors and does not affect evaluation.
#[derive(PartialEq, Eq, Debug)]
pub struct BoundaryPort {
    /// Identifier consumers resolve against, unique within its side.
    pub name: String,
    /// The type this port carries.
    pub ty: PinType,
    /// Documentation for authors. Empty when unset.
    pub description: String,
}

/// A port with its texts as characters.
pub struct PortView {
    /// Port name.
    pub name: Seq<char>,
    /// Port type.
    pub ty: PinType,
    /// Documentation.
    pub description: Seq<char>,
}

impl BoundaryPort {
    /// The port with its texts as characters.
    pub open spec fn view(&self) -> PortView {
        PortView { name: self.name@, ty: self.ty, description: self.description@ }
    }

    /// A port with the given name and type and no description.
    pub fn new(name: String, ty: PinType) -> (r: Self)
        ensures
            r@ == (PortView { name: name@, ty, description: Seq::empty() }),
    {
        let description = String::new();
        proof {
            reveal_strlit("");
            assert(description@ =~= Seq::<char>::empty());
        }
        BoundaryPort { name, ty, description }
    }

    /// Attach documentation for authors.
    pub fn with_description(self, description: String) -> (r: Self)
        ensures
            r@ == (PortView { description: description@, ..self@ }),
    {
        let mut p = self;
        p.description = description;
        p
    }
}

impl Clone for BoundaryPort {
    fn clone(&self) -> (r: Self)
        ensures
            r@ == self@,
    {
        BoundaryPort {
            name: self.name.clone(),
            ty: self.ty,
            description: self.description.clone(),
        }
    }
}

/// The views of a list of ports.
pub open spec fn port_views(ports: Seq<BoundaryPort>) -> Seq<PortView> {
    ports.map_values(|p: BoundaryPort| p@)
}

/// The first port with this name, if any.
pub open spec fn port_named(ports: Seq<PortView>, name: Seq<char>) -> Option<int>
    decreases ports.len(),
{
    if ports.len() == 0 {
        None
    } else {
        match port_named(ports.drop_last(), name) {
            Some(i) => Some(i),
            None => if ports.last().name == name {
                Some(ports.len() - 1)
            } else {
                None
            },
        }
    }
}

/// The pin a port becomes on a node that references it: never required.
pub open spec fn port_pin(p: PortView) -> PinView {
    PinView { name: p.name, ty: p.ty, required: false }
}

/// The pins a list of ports becomes.
pub open spec fn port_pins(ports: Seq<PortView>) -> Seq<PinView> {
    ports.map_values(|p: PortView| port_pin(p))
}

/// The declared boundary of a graph.
///
/// Libraries declare inputs, fed by a reference's incoming edges, and outputs.
/// World, zone and biome graphs declare outputs only.
#[derive(PartialEq, Eq, Debug)]
pub struct GraphBoundary {
    /// Named typed inputs.
    pub inputs: Vec<BoundaryPort>,
    /// Named typed outputs.
    pub outputs: Vec<BoundaryPort>,
}

/// A boundary as sequences of port views.
pub struct BoundaryView {
    /// Named typed inputs.
    pub inputs: Seq<PortView>,
    /// Named typed outputs.
    pub outputs: Seq<PortView>,
}

impl Default for GraphBoundary {
    fn default() -> (r: Self)
        ensures
            r@ == (BoundaryView { inputs: Seq::empty(), outputs: Seq::empty() }),
    {
        let r = GraphBoundary { inputs: Vec::new(), outputs: Vec::new() };
        assert(r@.inputs =~= Seq::<PortView>::empty());
        assert(r@.outputs =~= Seq::<PortView>::empty());
        r
    }
}

fn find_port<'a>(ports: &'a Vec<BoundaryPort>, name: &str) -> (r: Option<&'a BoundaryPort>)
    ensures
        match port_named(port_views(ports@), name@) {
            Some(i) => 0 <= i < ports@.len() && r == Some(&ports@[i]),
            None => r is None,
        },
{
    let mut k: usize = 0;
    while k < ports.len()
        invariant
            k <= ports@.len(),
            port_named(port_views(ports@).take(k as int), name@) is None,
        decreases ports@.len() - k,
    {
        let hit = same_text(ports[k].name.as_str(), name);
        proof {
            let upto = port_views(ports@).take(k + 1);
            assert(upto.drop_last() =~= port_views(ports@).take(k as int));
        }
        if hit {
            proof {
                lemma_port_named_prefix(port_views(ports@), name@, k + 1);
            }
            return Some(&ports[k]);
        }
        k = k + 1;
    }
    assert(port_views(ports@).take(k as int) =~= port_views(ports@));
    None
}

proof fn lemma_port_named_prefix(ports: Seq<PortView>, name: Seq<char>, k: int)
    requires
        0 <= k <= ports.len(),
        port_named(ports.take(k), name) is Some,
    ensures
        port_named(ports, name) == port_named(ports.take(k), name),
    decreases ports.len() - k,
{
    if k < ports.len() {
        assert(ports.take(k + 1).drop_last() =~= ports.take(k));
        lemma_port_named_prefix(ports, name, k + 1);
    } else {
        assert(ports.take(k) =~= ports);
    }
}

/// Looking a name up gives the first port that carries it, and nothing exactly
/// when no port does.
pub proof fn lookup_finds_the_first(ports: Seq<PortView>, name: Seq<char>)
    ensures
        match port_named(ports, name) {
            Some(i) => 0 <= i < ports.len() && ports[i].name == name && forall|j: int|
                0 <= j < i ==> (#[trigger] ports[j]).name != name,
            None => forall|j: int| 0 <= j < ports.len() ==> (#[trigger] ports[j]).name != name,
        },
    decreases ports.len(),
{
    if ports.len() > 0 {
        lookup_finds_the_first(ports.drop_last(), name);
        assert forall|j: int| 0 <= j < ports.len() - 1 implies #[trigger] ports[j]
            == ports.drop_last()[j] by {}
    }
}

fn project(ports: &Vec<BoundaryPort>) -> (r: Vec<ResolvedPin>)
    ensures
        resolved_views(r@) == port_pins(port_views(ports@)),
{
    let mut out: Vec<ResolvedPin> = Vec::new();
    let mut k: usize = 0;
    while k < ports.len()
        invariant
            k <= ports@.len(),
            out@.len() == k,
            forall|j: int| 0 <= j < k ==> (#[trigger] out@[j])@ == port_pin(ports@[j]@),
        decreases ports@.len() - k,
    {
        out.push(ResolvedPin { name: ports[k].name.clone(), ty: ports[k].ty, required: false });
        k = k + 1;
    }
    assert(resolved_views(out@) =~= port_pins(port_views(ports@)));
    out
}

fn copy_ports(ports: &Vec<BoundaryPort>) -> (r: Vec<BoundaryPort>)
    ensures
        port_views(r@) == port_views(ports@),
{
    let mut out: Vec<BoundaryPort> = Vec::new();
    let mut k: usize = 0;
    while k < ports.len()
        invariant
            k <= ports@.len(),
            out@.len() == k,
            forall|j: int| 0 <= j < k ==> (#[trigger] out@[j])@ == ports@[j]@,
        decreases ports@.len() - k,
    {
        out.push(ports[k].clone());
        k = k + 1;
    }
    assert(port_views(out@) =~= port_views(ports@));
    out
}

impl GraphBoundary {
    /// The boundary as sequences of port views.
    pub open spec fn view(&self) -> BoundaryView {
        BoundaryView { inputs: port_views(self.inputs@), outputs: port_views(self.outputs@) }
    }

    /// True when neither side declares any port.
    pub fn is_empty(&self) -> (r: bool)
        ensures
            r == (self@.inputs.len() == 0 && self@.outputs.len() == 0),
    {
        self.inputs.len() == 0 && self.outputs.len() == 0
    }

    /// The first declared output port with this name, if any.
    pub fn output(&self, name: &str) -> (r: Option<&BoundaryPort>)
        ensures
            match port_named(self@.outputs, name@) {
                Some(i) => 0 <= i < self@.outputs.len() && r == Some(&self.outputs@[i]),
                None => r is None,
            },
    {
        find_port(&self.outputs, name)
    }

    /// The first declared input port with this name, if any.
    pub fn input(&self, name: &str) -> (r: Option<&BoundaryPort>)
        ensures
            match port_named(self@.inputs, name@) {
                Some(i) => 0 <= i < self@.inputs.len() && r == Some(&self.inputs@[i]),
                None => r is None,
            },
    {
        find_port(&self.inputs, name)
    }

    /// Project this boundary onto a referencing node's pins: each input port
    /// becomes an input pin and each output port an output pin, carrying the
    /// port's name and type. No pin is required.
    pub fn to_resolved(&self) -> (r: ResolvedBoundary)
        ensures
            r@ == (ResolvedView {
                inputs: port_pins(self@.inputs),
                outputs: port_pins(self@.outputs),
            }),
    {
        ResolvedBoundary { inputs: project(&self.inputs), outputs: project(&self.outputs) }
    }

    /// Project only the outputs. A node that reads a graph feeds it nothing, so
    /// its resolved boundary has no inputs.
    pub fn to_resolved_outputs(&self) -> (r: ResolvedBoundary)
        ensures
            r@ == (ResolvedView { inputs: Seq::empty(), outputs: port_pins(self@.outputs) }),
    {
        let inputs: Vec<ResolvedPin> = Vec::new();
        assert(resolved_views(inputs@) =~= Seq::<PinView>::empty());
        ResolvedBoundary { inputs, outputs: project(&self.outputs) }
    }
}

impl Clone for GraphBoundary {
    fn clone(&self) -> (r: Self)
        ensures
            r@ == self@,
    {
        GraphBoundary { inputs: copy_ports(&self.inputs), outputs: copy_ports(&self.outputs) }
    }
}

/// A boundary port projected onto a referencing node.
#[derive(PartialEq, Eq, Debug)]
pub struct ResolvedPin {
    /// Pin name, from the referenced boundary port.
    pub name: String,
    /// Pin type.
    pub ty: PinType,
    /// Whether a connection is required for validity (input pins only).
    pub required: bool,
}

impl ResolvedPin {
    /// The pin with its name as characters.
    pub open spec fn view(&self) -> PinView {
        PinView { name: self.name@, ty: self.ty, required: self.required }
    }
}

impl Clone for ResolvedPin {
    fn clone(&self) -> (r: Self)
        ensures
            r@ == self@,
    {
        ResolvedPin { name: self.name.clone(), ty: self.ty, required: self.required }
    }
}

/// The views of a list of resolved pins.
pub open spec fn resolved_views(pins: Seq<ResolvedPin>) -> Seq<PinView> {
    pins.map_values(|p: ResolvedPin| p@)
}

/// A referencing node's pins, computed from the referenced boundary.
#[derive(PartialEq, Eq, Debug)]
pub struct ResolvedBoundary {
    /// Resolved input pins.
    pub inputs: Vec<ResolvedPin>,
    /// Resolved output pins.
    pub outputs: Vec<ResolvedPin>,
}

/// A resolved boundary as sequences of pin views.
pub struct ResolvedView {
    /// Resolved input pins.
    pub inputs: Seq<PinView>,
    /// Resolved output pins.
    pub outputs: Seq<PinView>,
}

fn copy_pins(pins: &Vec<ResolvedPin>) -> (r: Vec<ResolvedPin>)
    ensures
        resolved_views(r@) == resolved_views(pins@),
{
    let mut out: Vec<ResolvedPin> = Vec::new();
    let mut k: usize = 0;
    while k < pins.len()
        invariant
            k <= pins@.len(),
            out@.len() == k,
            forall|j: int| 0 <= j < k ==> (#[trigger] out@[j])@ == pins@[j]@,
        decreases pins@.len() - k,
    {
        out.push(pins[k].clone());
        k = k + 1;
    }
    assert(resolved_views(out@) =~= resolved_views(pins@));
    out
}

impl ResolvedBoundary {
    /// The resolved boundary as sequences of pin views.
    pub open spec fn view(&self) -> ResolvedView {
        ResolvedView {
            inputs: resolved_views(self.inputs@),
            outputs: resolved_views(self.outputs@),
        }
    }
}

impl Clone for ResolvedBoundary {
    fn clone(&self) -> (r: Self)
        ensures
            r@ == self@,
    {
        ResolvedBoundary { inputs: copy_pins(&self.inputs), outputs: copy_pins(&self.outputs) }
    }
}

impl Default for ResolvedBoundary {
    fn default() -> (r: Self)
        ensures
            r@ == (ResolvedView { inputs: Seq::empty(), outputs: Seq::empty() }),
    {
        let r = ResolvedBoundary { inputs: Vec::new(), outputs: Vec::new() };
        assert(r@.inputs =~= Seq::<PinView>::empty());
        assert(r@.outputs =~= Seq::<PinView>::empty());
        r
    }
}

/// A node's effective pin on one side. Borrows its name from whichever list
/// backs it.
#[derive(Clone, Copy, Debug)]
pub struct EffectivePin<'a> {
    /// Pin name.
    pub name: &'a str,
    /// Pin type.
    pub ty: PinType,
    /// Whether a connection is required for validity (input pins only).
    pub required: bool,
}

impl<'a> EffectivePin<'a> {
    /// The pin with its name as characters.
    pub open spec fn view(&self) -> PinView {
        PinView { name: self.name@, ty: self.ty, required: self.required }
    }
}

/// The views of a list of effective pins.
pub open spec fn effective_views(pins: Seq<EffectivePin>) -> Seq<PinView> {
    pins.map_values(|p: EffectivePin| p@)
}

} // verus!
