//! What lists, texts and colors show: the order they come in, and what they leave out.
use crate::badges::strongest;
use crate::diagnostic::{Diagnostic, Severity};
use crate::eval_error::EvalError;
use crate::heightmap::{shade, shaded};
use crate::node::{Node, NodeCategory, NodeKind, Rgb};
use crate::palette::{brightness, color_of_pin, color_of_severity, fill_of};
use crate::pin::PinType;
use crate::slots::NodeId;
use crate::sources::{
    declared_source, declared_sources, in_list_order, listed, listed_before,
    sources_are_in_content_order, with_declared, PayloadView, SourceView,
};
use crate::text::{decimal_text, digit_char, text_before};
use crate::watch::{changed_paths, noted_paths, WatchEvent, WatchKind, WatchedPath};
use crate::world::ZoneGraph;
use vstd::prelude::*;

verus! {

/// The number that decimal digits write.
pub open spec fn number_read(s: Seq<char>) -> int
    decreases s.len(),
{
    if s.len() == 0 {
        0
    } else {
        10 * number_read(s.drop_last()) + (s.last() as int - '0' as int)
    }
}

/// Decimal text reads back as the number it was made of, is made of digits alone, and
/// starts with a zero only where it is one.
pub proof fn decimals_read_back(n: nat)
    ensures
        number_read(decimal_text(n)) == n,
        decimal_text(n).len() >= 1,
        forall|i: int|
            0 <= i < decimal_text(n).len() ==> '0' <= (#[trigger] decimal_text(n)[i]) <= '9',
        n > 0 ==> decimal_text(n)[0] != '0',
    decreases n,
{
    let s = decimal_text(n);
    if n < 10 {
        assert(digit_char(n) as int == '0' as int + n);
        assert(s.drop_last() =~= Seq::<char>::empty());
        assert(number_read(s.drop_last()) == 0);
    } else {
        decimals_read_back(n / 10);
        assert(s.drop_last() =~= decimal_text(n / 10));
        assert(digit_char(n % 10) as int == '0' as int + n % 10);
        assert(s[0] == decimal_text(n / 10)[0]);
    }
}

/// Dictionary order goes by the first character at which two texts differ, and puts a text
/// before every longer one that it starts.
pub proof fn dictionaries_go_by_the_first_difference(a: Seq<char>, b: Seq<char>, k: int)
    requires
        0 <= k <= a.len(),
        k < b.len(),
        forall|i: int| 0 <= i < k ==> a[i] == b[i],
    ensures
        k == a.len() ==> text_before(a, b),
        k < a.len() && a[k] < b[k] ==> text_before(a, b),
        k < a.len() && a[k] > b[k] ==> !text_before(a, b),
    decreases k,
{
    if k > 0 {
        let (s, t) = (a.drop_first(), b.drop_first());
        assert forall|i: int| 0 <= i < k - 1 implies s[i] == t[i] by {
            assert(a[i + 1] == b[i + 1]);
        }
        dictionaries_go_by_the_first_difference(s, t, k - 1);
        assert(a[0] == b[0]);
    }
}

/// Whether a watcher's reports tell that a graph file with a number was created or modified.
pub open spec fn reported(events: Seq<WatchEvent>, path: usize) -> bool {
    exists|e: int, p: int|
        0 <= e < events.len() && (events[e].kind == WatchKind::Created || events[e].kind
            == WatchKind::Modified) && 0 <= p < events[e].paths@.len() && is_graph(
            #[trigger] events[e].paths@[p],
        ) && events[e].paths@[p].path == path
}

/// Whether a path has the extension of graph files.
pub open spec fn is_graph(p: WatchedPath) -> bool {
    p.extension is Some && p.extension->0@ == "json"@
}

proof fn lemma_noted(known: Seq<usize>, paths: Seq<WatchedPath>, path: usize)
    requires
        known.no_duplicates(),
    ensures
        noted_paths(known, paths).no_duplicates(),
        known.is_prefix_of(noted_paths(known, paths)),
        noted_paths(known, paths).contains(path) <==> known.contains(path) || exists|p: int|
            0 <= p < paths.len() && is_graph(#[trigger] paths[p]) && paths[p].path == path,
    decreases paths.len(),
{
    if paths.len() > 0 {
        let less = paths.drop_last();
        let n = paths.len() - 1;
        lemma_noted(known, less, path);
        let rest = noted_paths(known, less);
        let now = noted_paths(known, paths);
        assert forall|p: int| 0 <= p < less.len() implies less[p] == #[trigger] paths[p] by {}
        assert(now == rest || now == rest.push(paths[n].path));
        if rest.contains(path) {
            let w = choose|w: int| 0 <= w < rest.len() && rest[w] == path;
            assert(now[w] == path);
        }
        if now.contains(path) && !rest.contains(path) {
            assert(is_graph(paths[n]) && paths[n].path == path);
        }
        if is_graph(paths[n]) && paths[n].path == path && !rest.contains(path) {
            assert(now[rest.len() as int] == path);
        }
    }
}

/// Changed graph files are listed once each: every one that was created or modified and
/// nothing else. Later reports add behind what is listed.
pub proof fn changes_are_listed_once(events: Seq<WatchEvent>, e: WatchEvent, path: usize)
    ensures
        changed_paths(events).no_duplicates(),
        changed_paths(events).contains(path) <==> reported(events, path),
        changed_paths(events).is_prefix_of(changed_paths(events.push(e))),
{
    lemma_changes(events, path);
    assert(events.push(e).drop_last() =~= events);
    lemma_noted(changed_paths(events), e.paths@, path);
}

proof fn lemma_changes(events: Seq<WatchEvent>, path: usize)
    ensures
        changed_paths(events).no_duplicates(),
        changed_paths(events).contains(path) <==> reported(events, path),
    decreases events.len(),
{
    if events.len() > 0 {
        let less = events.drop_last();
        let n = events.len() - 1;
        lemma_changes(less, path);
        lemma_noted(changed_paths(less), events[n].paths@, path);
        if reported(less, path) {
            let (e, p) = choose|e: int, p: int|
                0 <= e < less.len() && (less[e].kind == WatchKind::Created || less[e].kind
                    == WatchKind::Modified) && 0 <= p < less[e].paths@.len() && is_graph(
                    #[trigger] less[e].paths@[p],
                ) && less[e].paths@[p].path == path;
            assert(events[e].paths@[p].path == path);
        }
        if reported(events, path) {
            let (e, p) = choose|e: int, p: int|
                0 <= e < events.len() && (events[e].kind == WatchKind::Created || events[e].kind
                    == WatchKind::Modified) && 0 <= p < events[e].paths@.len() && is_graph(
                    #[trigger] events[e].paths@[p],
                ) && events[e].paths@[p].path == path;
            if e < n {
                assert(less[e].paths@[p].path == path);
            }
        }
    }
}

/// Whether something of a severity was found about a node.
pub open spec fn found_about(d: Seq<Diagnostic>, node: NodeId, s: Severity) -> bool {
    exists|i: int| 0 <= i < d.len() && (#[trigger] d[i]).node == Some(node) && d[i].severity == s
}

/// A node's badge is an error where any was found about it, else a warning where any was,
/// else a remark where any was; without a finding it has none.
pub proof fn errors_come_before_warnings(d: Seq<Diagnostic>, node: NodeId)
    ensures
        strongest(d, node) == if found_about(d, node, Severity::Error) {
            Some(Severity::Error)
        } else if found_about(d, node, Severity::Warning) {
            Some(Severity::Warning)
        } else if found_about(d, node, Severity::Info) {
            Some(Severity::Info)
        } else {
            None
        },
    decreases d.len(),
{
    if d.len() > 0 {
        let less = d.drop_last();
        let n = d.len() - 1;
        errors_come_before_warnings(less, node);
        assert forall|s: Severity| #[trigger] found_about(d, node, s) <==> found_about(
            less,
            node,
            s,
        ) || (d[n].node == Some(node) && d[n].severity == s) by {
            if found_about(less, node, s) {
                let i = choose|i: int|
                    0 <= i < less.len() && (#[trigger] less[i]).node == Some(node)
                        && less[i].severity == s;
                assert(d[i] == less[i]);
            }
            if found_about(d, node, s) {
                let i = choose|i: int|
                    0 <= i < d.len() && (#[trigger] d[i]).node == Some(node) && d[i].severity == s;
                if i < n {
                    assert(less[i] == d[i]);
                }
            }
        }
    }
}

/// A slice of a field shows each cell in its row and column by one character, and ends each
/// row of 32.
pub proof fn slices_show_their_cells_in_place(levels: Seq<u8>, x: int, row: int)
    requires
        0 <= x < 32,
        0 <= row,
        x + 32 * row < levels.len(),
    ensures
        shaded(levels)[33 * row + x] == shade(levels[x + 32 * row]),
        32 * row + 31 < levels.len() ==> shaded(levels)[33 * row + 32] == '\n',
    decreases levels.len(),
{
    let n = levels.len() - 1;
    let less = levels.drop_last();
    crate::heightmap::rows_have_equal_length(levels);
    crate::heightmap::rows_have_equal_length(less);
    let text = shaded(levels);
    let before = shaded(less);
    assert forall|i: int| 0 <= i < before.len() implies text[i] == before[i] by {}
    if x + 32 * row < n {
        slices_show_their_cells_in_place(less, x, row);
        assert(33 * row + x < before.len());
        if n == 32 * row + 31 {
            assert(before.len() == 33 * row + 31);
        }
    } else {
        assert(before.len() == 33 * row + x);
    }
}

/// Shades go from dark to bright, and a level beyond the brightest shows as the brightest.
pub proof fn shades_go_from_dark_to_bright(level: u8)
    ensures
        shade(level) == " .:-=+*#%@"@[if level < 10 {
            level as int
        } else {
            9
        }],
{
    reveal_strlit(" .:-=+*#%@");
}

/// A structure or tree placed in a zone declares one source with its own parameters, for
/// that zone alone; what places a structure may anchor foliage and lift it off the ground, a
/// tree does neither, and is never turned. Other nodes declare nothing, and what is not
/// resolved is an error.
pub proof fn sources_are_as_declared(zone: u16, id: NodeId, node: Node)
    ensures
        node.kind matches NodeKind::PlaceStructure(p) ==> match declared_source(zone, id, node) {
            Err(e) => p.resolved is None && e == (EvalError::UnresolvedBlueprint { node: id }),
            Ok(None) => false,
            Ok(Some(s)) => {
                &&& p.resolved is Some
                &&& s.payload is Blueprint
                &&& s.payload->Blueprint_0 == p.resolved->0@
                &&& s.zones.len() == 1 && s.zones[0] == zone
                &&& s.biomes == p.biomes@
                &&& (s.cell_size, s.density, s.seed) == (p.cell_size, p.density, p.seed)
                &&& s.random_yaw == p.random_yaw
                &&& s.surface_offset == p.surface_offset
                &&& s.canopy is Some <==> p.canopy is Some
                &&& p.canopy matches Some(c) ==> (
                    s.canopy->0.type_id,
                    s.canopy->0.prefab_id,
                    s.canopy->0.y_offset,
                ) == (c.type_id, c.prefab_id, c.y_offset)
            },
        },
        node.kind matches NodeKind::PlaceTree(p) ==> match declared_source(zone, id, node) {
            Err(e) => p.resolved is None && e == (EvalError::UnresolvedBlueprint { node: id }),
            Ok(None) => false,
            Ok(Some(s)) => {
                &&& p.resolved is Some
                &&& s.payload matches PayloadView::Tree { name, species, wood, age } && name
                    == p.species@ && species == p.resolved->0.species && wood
                    == p.resolved->0.wood && age == p.age
                &&& s.zones.len() == 1 && s.zones[0] == zone
                &&& s.biomes == p.biomes@
                &&& (s.cell_size, s.density, s.seed) == (p.cell_size, p.density, p.seed)
                &&& !s.random_yaw
                &&& s.surface_offset == 0
                &&& s.canopy is None
            },
        },
        !(node.kind is PlaceStructure || node.kind is PlaceTree) ==> declared_source(zone, id, node)
            == Ok::<Option<SourceView>, EvalError>(None),
{
}

proof fn lemma_listed_adds(s: Seq<SourceView>, v: SourceView)
    ensures
        listed(s, v).to_multiset() == s.to_multiset().insert(v),
    decreases s.len(),
{
    broadcast use vstd::seq_lib::group_to_multiset_ensures;
    broadcast use vstd::multiset::group_multiset_axioms;

    if s.len() == 0 || !listed_before(v, s.last()) {
    } else {
        lemma_listed_adds(s.drop_last(), v);
        assert(s =~= s.drop_last().push(s.last()));
        assert(listed(s, v).to_multiset() =~= s.to_multiset().insert(v));
    }
}

/// Every node of every zone adds what it declares and no more, and nothing is declared once
/// a node fails.
pub proof fn nodes_declare_one_source_each(
    so_far: Seq<SourceView>,
    zone: u16,
    nodes: Map<NodeId, Node>,
    keys: Seq<NodeId>,
    id: NodeId,
)
    ensures
        with_declared(Ok(so_far), zone, nodes, Seq::empty()) == Ok::<Seq<SourceView>, EvalError>(
            so_far,
        ),
        match with_declared(Ok(so_far), zone, nodes, keys) {
            Err(e) => with_declared(Ok(so_far), zone, nodes, keys.push(id)) == Err::<
                Seq<SourceView>,
                EvalError,
            >(e),
            Ok(s) => match (
                declared_source(zone, id, nodes[id]),
                with_declared(Ok(so_far), zone, nodes, keys.push(id)),
            ) {
                (Err(e), Err(f)) => e == f,
                (Ok(None), Ok(t)) => t == s,
                (Ok(Some(v)), Ok(t)) => t.to_multiset() == s.to_multiset().insert(v),
                _ => false,
            },
        },
{
    assert(keys.push(id).drop_last() =~= keys);
    if let Ok(s) = with_declared(Ok(so_far), zone, nodes, keys) {
        if let Ok(Some(v)) = declared_source(zone, id, nodes[id]) {
            lemma_listed_adds(s, v);
        }
    }
}

/// Declared sources come by ascending zone, then seed, then cell size, and by name among
/// those that agree in all three.
pub proof fn sources_come_by_zone_and_seed(zones: Seq<ZoneGraph>, i: int, j: int)
    requires
        declared_sources(zones) is Ok,
        0 <= i < j < declared_sources(zones)->Ok_0.len(),
    ensures
        ({
            let a = declared_sources(zones)->Ok_0[i];
            let b = declared_sources(zones)->Ok_0[j];
            &&& a.zones[0] <= b.zones[0]
            &&& a.zones[0] == b.zones[0] ==> a.seed <= b.seed
            &&& a.zones[0] == b.zones[0] && a.seed == b.seed ==> a.cell_size <= b.cell_size
            &&& a.zones[0] == b.zones[0] && a.seed == b.seed && a.cell_size == b.cell_size
                ==> !text_before(b.name(), a.name())
        }),
{
    sources_are_in_content_order(zones);
    assert(in_list_order(declared_sources(zones)->Ok_0));
}

/// A color written as one number, red first.
pub open spec fn packed(c: Rgb) -> int {
    0x1_0000 * c.r + 0x100 * c.g + c.b
}

/// The color of each type of pin.
pub proof fn pins_have_their_colors()
    ensures
        packed(color_of_pin(PinType::Scalar)) == 0xb4dcff,
        packed(color_of_pin(PinType::Density)) == 0x78c878,
        packed(color_of_pin(PinType::SurfaceField)) == 0x6ecdc8,
        packed(color_of_pin(PinType::Material)) == 0xdc5a5a,
        packed(color_of_pin(PinType::FluidProvider)) == 0x50a0eb,
        packed(color_of_pin(PinType::Positions)) == 0xe6c846,
        packed(color_of_pin(PinType::Assignments)) == 0xe6a046,
        packed(color_of_pin(PinType::Curve)) == 0xffc878,
        packed(color_of_pin(PinType::Vec3)) == 0xff8cc8,
        packed(color_of_pin(PinType::BiomeId)) == 0xb482ff,
        packed(color_of_pin(PinType::ZoneId)) == 0x966ed7,
        packed(color_of_pin(PinType::Terrain)) == 0xe6e6e6,
        packed(color_of_pin(PinType::PaintOutput)) == 0x64be64,
        packed(color_of_pin(PinType::ScatterOutput)) == 0xa0c850,
        packed(color_of_pin(PinType::PlacementMask)) == 0x82afa0,
        packed(color_of_pin(PinType::SpeciesWeights)) == 0xd7af6e,
        packed(color_of_severity(Severity::Error)) == 0xdc3c3c,
        packed(color_of_severity(Severity::Warning)) == 0xdcc83c,
        packed(color_of_severity(Severity::Info)) == 0x64b4e6,
{
}

/// The color of each category of node.
pub proof fn categories_have_their_colors()
    ensures
        packed(fill_of(NodeCategory::Source)) == 0x4c9aff,
        packed(fill_of(NodeCategory::Math)) == 0x9c7cff,
        packed(fill_of(NodeCategory::Curves)) == 0xffb34c,
        packed(fill_of(NodeCategory::Domain)) == 0xff7cc4,
        packed(fill_of(NodeCategory::Density)) == 0x6cc06c,
        packed(fill_of(NodeCategory::Material)) == packed(fill_of(NodeCategory::Output)),
        packed(fill_of(NodeCategory::Positions)) == 0xe0c04c,
        packed(fill_of(NodeCategory::Scanners)) == 0xb0b0c0,
        packed(fill_of(NodeCategory::Props)) == 0xc89060,
        packed(fill_of(NodeCategory::Biome)) == packed(fill_of(NodeCategory::Library)),
        packed(fill_of(NodeCategory::Library)) == 0xb080ff,
        packed(fill_of(NodeCategory::Graph)) == 0x80a0ff,
        packed(fill_of(NodeCategory::Foliage)) == 0x6cb04c,
        packed(fill_of(NodeCategory::Output)) == 0xe04c4c,
{
}

/// Brightness counts a gray by itself, and of the colors green most and blue least.
pub proof fn green_is_brightest(c: Rgb, g: u8)
    ensures
        brightness(Rgb { r: g, g, b: g }) == 1000 * g,
        c.r < 255 ==> brightness(Rgb { r: (c.r + 1) as u8, ..c }) == brightness(c) + 299,
        c.g < 255 ==> brightness(Rgb { g: (c.g + 1) as u8, ..c }) == brightness(c) + 587,
        c.b < 255 ==> brightness(Rgb { b: (c.b + 1) as u8, ..c }) == brightness(c) + 114,
{
}

} // verus!
