//! The city graph: nodes, directed edge records, per-district base
//! movement costs, and the operations that annotate edges with
//! restrictions.
//!
//! Every undirected road is stored as two directed records, one in each
//! node's adjacency list. Restrictions are applied to both records,
//! except one-way restrictions, which block only the named direction.

use vstd::prelude::*;

use crate::cards::SituationCard;
use crate::enums::{District, RestrictionType, spec_traffic_cost};

verus! {

/// A location of the city graph.
#[derive(Clone, Debug, PartialEq, Eq)]
pub struct Node {
    pub id: u8,
    pub name: String,
    pub is_connected_to_rail: bool,
    pub is_parking_spot: bool,
}

/// The mathematical value of a [`Node`].
pub ghost struct NodeView {
    pub id: u8,
    pub name: Seq<char>,
    pub is_connected_to_rail: bool,
    pub is_parking_spot: bool,
}

impl View for Node {
    type V = NodeView;

    open spec fn view(&self) -> NodeView {
        NodeView {
            id: self.id,
            name: self.name@,
            is_connected_to_rail: self.is_connected_to_rail,
            is_parking_spot: self.is_parking_spot,
        }
    }
}

impl Node {
    /// A node with the given identity and name, connected to nothing
    /// special.
    pub fn new(id: u8, name: String) -> (r: Self)
        ensures
            r@.id == id,
            r@.name == name@,
            !r@.is_connected_to_rail,
            !r@.is_parking_spot,
    {
        Self { id, name, is_parking_spot: false, is_connected_to_rail: false }
    }

    /// Flips whether the node is a rail station.
    pub fn toggle_rail_connection(&mut self)
        ensures
            final(self)@ == (NodeView {
                is_connected_to_rail: !old(self)@.is_connected_to_rail,
                ..old(self)@
            }),
    {
        self.is_connected_to_rail = !self.is_connected_to_rail;
    }

    /// A copy whose mathematical value equals this node's.
    pub fn duplicate(&self) -> (r: Self)
        ensures
            r@ == self@,
    {
        Self {
            id: self.id,
            name: self.name.clone(),
            is_connected_to_rail: self.is_connected_to_rail,
            is_parking_spot: self.is_parking_spot,
        }
    }
}

/// One directed edge record: the node it leads to, the district the
/// road lies in, its own movement cost, and its annotations.
#[derive(Clone, Copy, Debug, PartialEq, Eq)]
pub struct NeighbourRelationship {
    pub to: u8,
    pub neighbourhood: District,
    pub movement_cost: i16,
    pub blocked: bool,
    pub is_connected_through_rail: bool,
    pub restriction: Option<RestrictionType>,
    pub is_modifiable: bool,
}

impl NeighbourRelationship {
    /// A fresh, unrestricted, unblocked, modifiable edge record.
    pub fn new(
        to: u8,
        neighbourhood: District,
        movement_cost: i16,
        is_connected_through_rail: bool,
    ) -> (r: Self)
        ensures
            r == (NeighbourRelationship {
                to,
                neighbourhood,
                movement_cost,
                blocked: false,
                is_connected_through_rail,
                restriction: None,
                is_modifiable: true,
            }),
    {
        Self {
            to,
            neighbourhood,
            movement_cost,
            blocked: false,
            is_connected_through_rail,
            restriction: None,
            is_modifiable: true,
        }
    }
}

/// A request to tag or untag the road between two nodes.
#[derive(Clone, Copy, Debug, PartialEq, Eq)]
pub struct EdgeRestriction {
    pub node_one: u8,
    pub node_two: u8,
    pub edge_restriction: RestrictionType,
    pub delete: bool,
}

impl EdgeRestriction {
    /// A request to put the given restriction on the road between the
    /// two nodes.
    pub fn new(node_id_one: u8, node_id_two: u8, edge_restriction: RestrictionType) -> (r: Self)
        ensures
            r == (EdgeRestriction {
                node_one: node_id_one,
                node_two: node_id_two,
                edge_restriction,
                delete: false,
            }),
    {
        Self { node_one: node_id_one, node_two: node_id_two, delete: false, edge_restriction }
    }
}

/// The city graph: node list, adjacency lists indexed by node identity,
/// and the districts' base movement costs.
#[derive(Clone, Debug, PartialEq)]
pub struct NodeMap {
    pub nodes: Vec<Node>,
    pub edges: Vec<Vec<NeighbourRelationship>>,
    pub neighbourhood_cost: Vec<(District, i16)>,
}

/// The mathematical value of a [`NodeMap`].
pub ghost struct NodeMapView {
    pub nodes: Seq<NodeView>,
    pub edges: Seq<Seq<NeighbourRelationship>>,
    pub neighbourhood_cost: Seq<(District, i16)>,
}

impl View for NodeMap {
    type V = NodeMapView;

    open spec fn view(&self) -> NodeMapView {
        NodeMapView {
            nodes: self.nodes@.map_values(|n: Node| n@),
            edges: self.edges@.map_values(|e: Vec<NeighbourRelationship>| e@),
            neighbourhood_cost: self.neighbourhood_cost@,
        }
    }
}

// ---------------------------------------------------------------------
// District base-cost table lookup.

/// Whether a cost table has an entry for district `d`.
pub open spec fn spec_has_district_cost(costs: Seq<(District, i16)>, d: District) -> bool {
    exists|j: int| 0 <= j < costs.len() && (#[trigger] costs[j]).0 == d
}

/// The position of the first entry for district `d`; meaningful only
/// under [`spec_has_district_cost`].
pub open spec fn spec_district_cost_idx(costs: Seq<(District, i16)>, d: District) -> int {
    choose|j: int|
        0 <= j < costs.len() && (#[trigger] costs[j]).0 == d && (forall|k: int|
            0 <= k < j ==> (#[trigger] costs[k]).0 != d)
}

/// The base movement cost of district `d` in a cost table: the value of
/// the first entry for `d`, or nothing if the table has none.
pub open spec fn spec_district_cost(costs: Seq<(District, i16)>, d: District) -> Option<i16> {
    if spec_has_district_cost(costs, d) {
        Some(costs[spec_district_cost_idx(costs, d)].1)
    } else {
        None
    }
}

proof fn lemma_district_cost_minimal_exists(costs: Seq<(District, i16)>, d: District, w: int)
    requires
        0 <= w < costs.len(),
        costs[w].0 == d,
    ensures
        exists|j: int|
            0 <= j < costs.len() && (#[trigger] costs[j]).0 == d && (forall|k: int|
                0 <= k < j ==> (#[trigger] costs[k]).0 != d),
    decreases w,
{
    if forall|k: int| 0 <= k < w ==> (#[trigger] costs[k]).0 != d {
        assert(0 <= w < costs.len() && costs[w].0 == d && (forall|k: int|
            0 <= k < w ==> (#[trigger] costs[k]).0 != d));
    } else {
        let k = choose|k: int| 0 <= k < w && (#[trigger] costs[k]).0 == d;
        lemma_district_cost_minimal_exists(costs, d, k);
    }
}

/// Where `j` is the first entry for `d`, the lookup returns its value.
pub proof fn lemma_district_cost_at(costs: Seq<(District, i16)>, d: District, j: int)
    requires
        0 <= j < costs.len(),
        costs[j].0 == d,
        forall|k: int| 0 <= k < j ==> (#[trigger] costs[k]).0 != d,
    ensures
        spec_district_cost(costs, d) == Some(costs[j].1),
        spec_district_cost_idx(costs, d) == j,
{
    assert(spec_has_district_cost(costs, d));
    let j2 = spec_district_cost_idx(costs, d);
    assert(0 <= j2 < costs.len() && costs[j2].0 == d && (forall|k: int|
        0 <= k < j2 ==> (#[trigger] costs[k]).0 != d));
    if j2 < j {
        assert(costs[j2].0 != d);
    }
    if j < j2 {
        assert(costs[j].0 != d);
    }
}

/// The lookup's result always points at the first entry for `d`.
pub proof fn lemma_district_cost(costs: Seq<(District, i16)>, d: District)
    ensures
        spec_has_district_cost(costs, d) ==> {
            let j = spec_district_cost_idx(costs, d);
            &&& 0 <= j < costs.len()
            &&& costs[j].0 == d
            &&& forall|k: int| 0 <= k < j ==> (#[trigger] costs[k]).0 != d
            &&& spec_district_cost(costs, d) == Some(costs[j].1)
        },
        !spec_has_district_cost(costs, d) ==> spec_district_cost(costs, d) is None,
{
    if spec_has_district_cost(costs, d) {
        let w = choose|j: int| 0 <= j < costs.len() && (#[trigger] costs[j]).0 == d;
        lemma_district_cost_minimal_exists(costs, d, w);
    }
}

// ---------------------------------------------------------------------
// Node lookup.

/// Whether the node list holds a node with identity `id`.
pub open spec fn spec_has_node(nodes: Seq<NodeView>, id: u8) -> bool {
    exists|j: int| 0 <= j < nodes.len() && (#[trigger] nodes[j]).id == id
}

/// The position of the first node with identity `id`; meaningful only
/// under [`spec_has_node`].
pub open spec fn spec_node_idx(nodes: Seq<NodeView>, id: u8) -> int {
    choose|j: int|
        0 <= j < nodes.len() && (#[trigger] nodes[j]).id == id && (forall|k: int|
            0 <= k < j ==> (#[trigger] nodes[k]).id != id)
}

/// The first node with identity `id`; meaningful only under
/// [`spec_has_node`].
pub open spec fn spec_node(nodes: Seq<NodeView>, id: u8) -> NodeView {
    nodes[spec_node_idx(nodes, id)]
}

/// Where `j` is the first node with identity `id`, the lookup points
/// at it.
pub proof fn lemma_node_at(nodes: Seq<NodeView>, id: u8, j: int)
    requires
        0 <= j < nodes.len(),
        nodes[j].id == id,
        forall|k: int| 0 <= k < j ==> (#[trigger] nodes[k]).id != id,
    ensures
        spec_has_node(nodes, id),
        spec_node_idx(nodes, id) == j,
        spec_node(nodes, id) == nodes[j],
{
    assert(spec_has_node(nodes, id));
    let j2 = spec_node_idx(nodes, id);
    assert(0 <= j2 < nodes.len() && nodes[j2].id == id && (forall|k: int|
        0 <= k < j2 ==> (#[trigger] nodes[k]).id != id));
    if j2 < j {
        assert(nodes[j2].id != id);
    }
    if j < j2 {
        assert(nodes[j].id != id);
    }
}

// ---------------------------------------------------------------------
// Edge lookup.

/// Whether the edge list holds a record leading to node `to`.
pub open spec fn spec_list_has_edge(list: Seq<NeighbourRelationship>, to: u8) -> bool {
    exists|j: int| 0 <= j < list.len() && (#[trigger] list[j]).to == to
}

/// The position of the first record leading to `to`; meaningful only
/// under [`spec_list_has_edge`].
pub open spec fn spec_list_edge_idx(list: Seq<NeighbourRelationship>, to: u8) -> int {
    choose|j: int|
        0 <= j < list.len() && (#[trigger] list[j]).to == to && (forall|k: int|
            0 <= k < j ==> (#[trigger] list[k]).to != to)
}

/// Whether node `from` has an edge record leading to node `to`.
pub open spec fn spec_has_edge(m: NodeMapView, from: u8, to: u8) -> bool {
    from < m.edges.len() && spec_list_has_edge(m.edges[from as int], to)
}

/// The first edge record of `from` leading to `to`; meaningful only
/// under [`spec_has_edge`].
pub open spec fn spec_edge(m: NodeMapView, from: u8, to: u8) -> NeighbourRelationship {
    m.edges[from as int][spec_list_edge_idx(m.edges[from as int], to)]
}

/// Where `j` is the first record leading to `to`, the lookup points at
/// it.
pub proof fn lemma_list_edge_at(list: Seq<NeighbourRelationship>, to: u8, j: int)
    requires
        0 <= j < list.len(),
        list[j].to == to,
        forall|k: int| 0 <= k < j ==> (#[trigger] list[k]).to != to,
    ensures
        spec_list_has_edge(list, to),
        spec_list_edge_idx(list, to) == j,
{
    assert(spec_list_has_edge(list, to));
    let j2 = spec_list_edge_idx(list, to);
    assert(0 <= j2 < list.len() && list[j2].to == to && (forall|k: int|
        0 <= k < j2 ==> (#[trigger] list[k]).to != to));
    if j2 < j {
        assert(list[j2].to != to);
    }
    if j < j2 {
        assert(list[j].to != to);
    }
}

/// The lookup's result always points at the first record leading to
/// `to`.
pub proof fn lemma_list_edge(list: Seq<NeighbourRelationship>, to: u8)
    ensures
        spec_list_has_edge(list, to) ==> {
            let j = spec_list_edge_idx(list, to);
            &&& 0 <= j < list.len()
            &&& list[j].to == to
            &&& forall|k: int| 0 <= k < j ==> (#[trigger] list[k]).to != to
        },
    decreases list.len(),
{
    if spec_list_has_edge(list, to) {
        let w = choose|j: int| 0 <= j < list.len() && (#[trigger] list[j]).to == to;
        lemma_list_edge_minimal_exists(list, to, w);
    }
}

proof fn lemma_list_edge_minimal_exists(list: Seq<NeighbourRelationship>, to: u8, w: int)
    requires
        0 <= w < list.len(),
        list[w].to == to,
    ensures
        exists|j: int|
            0 <= j < list.len() && (#[trigger] list[j]).to == to && (forall|k: int|
                0 <= k < j ==> (#[trigger] list[k]).to != to),
    decreases w,
{
    if forall|k: int| 0 <= k < w ==> (#[trigger] list[k]).to != to {
        assert(0 <= w < list.len() && list[w].to == to && (forall|k: int|
            0 <= k < w ==> (#[trigger] list[k]).to != to));
    } else {
        let k = choose|k: int| 0 <= k < w && (#[trigger] list[k]).to == to;
        lemma_list_edge_minimal_exists(list, to, k);
    }
}

// ---------------------------------------------------------------------

/// The cost of entering a district over the given edge: the larger of
/// the district's base cost and the edge's own cost — a floor, not a
/// sum.
pub open spec fn spec_entry_cost(base: i16, edge_cost: i16) -> i16 {
    if base >= edge_cost {
        base
    } else {
        edge_cost
    }
}

/// A well-shaped map: one adjacency list per node, each node stored
/// under its own identity as list position, every edge leading to a
/// stored node.
pub open spec fn spec_map_wf(m: NodeMapView) -> bool {
    &&& m.nodes.len() == m.edges.len()
    &&& forall|i: int| 0 <= i < m.nodes.len() ==> #[trigger] m.nodes[i].id == i
    &&& forall|i: int, j: int|
        0 <= i < m.edges.len() && 0 <= j < m.edges[i].len()
            ==> (#[trigger] m.edges[i][j]).to < m.nodes.len()
}

/// One directed record of the default road network.
pub open spec fn spec_road_record(
    to: u8,
    neighbourhood: District,
    is_connected_through_rail: bool,
) -> NeighbourRelationship {
    NeighbourRelationship {
        to,
        neighbourhood,
        movement_cost: 1,
        blocked: false,
        is_connected_through_rail,
        restriction: None,
        is_modifiable: true,
    }
}

/// The default city, as one mathematical value: its nodes, its roads
/// and rail links, and a base movement cost of one in every district.
pub open spec fn spec_default_map() -> NodeMapView {
    NodeMapView {
        nodes: seq![
            NodeView { id: 0, name: "Factory"@, is_connected_to_rail: false, is_parking_spot: false },
            NodeView { id: 1, name: "Refinery"@, is_connected_to_rail: false, is_parking_spot: false },
            NodeView { id: 2, name: "Industry Park"@, is_connected_to_rail: true, is_parking_spot: true },
            NodeView { id: 3, name: "I1"@, is_connected_to_rail: false, is_parking_spot: false },
            NodeView { id: 4, name: "I2"@, is_connected_to_rail: false, is_parking_spot: false },
            NodeView { id: 5, name: "Port"@, is_connected_to_rail: false, is_parking_spot: false },
            NodeView { id: 6, name: "I3"@, is_connected_to_rail: false, is_parking_spot: false },
            NodeView { id: 7, name: "Beach"@, is_connected_to_rail: false, is_parking_spot: false },
            NodeView { id: 8, name: "Northside"@, is_connected_to_rail: false, is_parking_spot: false },
            NodeView { id: 9, name: "I4"@, is_connected_to_rail: false, is_parking_spot: true },
            NodeView { id: 10, name: "Central Station"@, is_connected_to_rail: true, is_parking_spot: false },
            NodeView { id: 11, name: "City Square"@, is_connected_to_rail: false, is_parking_spot: false },
            NodeView { id: 12, name: "Concert Hall"@, is_connected_to_rail: false, is_parking_spot: false },
            NodeView { id: 13, name: "Eastside Mart"@, is_connected_to_rail: false, is_parking_spot: true },
            NodeView { id: 14, name: "East Town"@, is_connected_to_rail: false, is_parking_spot: false },
            NodeView { id: 15, name: "Food Court"@, is_connected_to_rail: false, is_parking_spot: false },
            NodeView { id: 16, name: "City Park"@, is_connected_to_rail: false, is_parking_spot: false },
            NodeView { id: 17, name: "Quarry"@, is_connected_to_rail: false, is_parking_spot: false },
            NodeView { id: 18, name: "I5"@, is_connected_to_rail: false, is_parking_spot: false },
            NodeView { id: 19, name: "I6"@, is_connected_to_rail: false, is_parking_spot: true },
            NodeView { id: 20, name: "I7"@, is_connected_to_rail: false, is_parking_spot: false },
            NodeView { id: 21, name: "I8"@, is_connected_to_rail: false, is_parking_spot: true },
            NodeView { id: 22, name: "West Town"@, is_connected_to_rail: false, is_parking_spot: false },
            NodeView { id: 23, name: "Lakeside"@, is_connected_to_rail: false, is_parking_spot: false },
            NodeView { id: 24, name: "Warehouses"@, is_connected_to_rail: true, is_parking_spot: false },
            NodeView { id: 25, name: "I9"@, is_connected_to_rail: false, is_parking_spot: false },
            NodeView { id: 26, name: "I10"@, is_connected_to_rail: false, is_parking_spot: true },
            NodeView { id: 27, name: "Terminal 1"@, is_connected_to_rail: true, is_parking_spot: true },
            NodeView { id: 28, name: "Terminal 2"@, is_connected_to_rail: false, is_parking_spot: false },
        ],
        edges: seq![
            seq![spec_road_record(1, District::IndustryPark, false), spec_road_record(2, District::IndustryPark, false)],
            seq![spec_road_record(0, District::IndustryPark, false), spec_road_record(2, District::IndustryPark, false)],
            seq![spec_road_record(0, District::IndustryPark, false), spec_road_record(1, District::IndustryPark, false), spec_road_record(3, District::Suburbs, false), spec_road_record(10, District::IndustryPark, true)],
            seq![spec_road_record(2, District::Suburbs, false), spec_road_record(4, District::RingRoad, false), spec_road_record(9, District::RingRoad, false)],
            seq![spec_road_record(3, District::RingRoad, false), spec_road_record(5, District::Port, false), spec_road_record(6, District::RingRoad, false)],
            seq![spec_road_record(4, District::Port, false)],
            seq![spec_road_record(4, District::RingRoad, false), spec_road_record(13, District::RingRoad, false), spec_road_record(7, District::Suburbs, false)],
            seq![spec_road_record(6, District::Suburbs, false), spec_road_record(8, District::Suburbs, false)],
            seq![spec_road_record(7, District::Suburbs, false)],
            seq![spec_road_record(3, District::RingRoad, false), spec_road_record(10, District::CityCentre, false), spec_road_record(18, District::RingRoad, false)],
            seq![spec_road_record(9, District::CityCentre, false), spec_road_record(11, District::CityCentre, false), spec_road_record(15, District::CityCentre, false), spec_road_record(2, District::IndustryPark, true), spec_road_record(24, District::IndustryPark, true)],
            seq![spec_road_record(10, District::CityCentre, false), spec_road_record(12, District::CityCentre, false), spec_road_record(16, District::CityCentre, false)],
            seq![spec_road_record(11, District::CityCentre, false), spec_road_record(13, District::CityCentre, false)],
            seq![spec_road_record(6, District::RingRoad, false), spec_road_record(12, District::CityCentre, false), spec_road_record(14, District::Suburbs, false), spec_road_record(20, District::RingRoad, false)],
            seq![spec_road_record(13, District::Suburbs, false), spec_road_record(21, District::Suburbs, false)],
            seq![spec_road_record(10, District::CityCentre, false), spec_road_record(16, District::CityCentre, false)],
            seq![spec_road_record(11, District::CityCentre, false), spec_road_record(15, District::CityCentre, false), spec_road_record(19, District::CityCentre, false)],
            seq![spec_road_record(18, District::Suburbs, false)],
            seq![spec_road_record(9, District::RingRoad, false), spec_road_record(17, District::Suburbs, false), spec_road_record(19, District::RingRoad, false), spec_road_record(23, District::Suburbs, false)],
            seq![spec_road_record(16, District::CityCentre, false), spec_road_record(18, District::RingRoad, false), spec_road_record(20, District::RingRoad, false)],
            seq![spec_road_record(13, District::RingRoad, false), spec_road_record(19, District::RingRoad, false), spec_road_record(26, District::Suburbs, false), spec_road_record(27, District::Airport, false)],
            seq![spec_road_record(14, District::Suburbs, false), spec_road_record(27, District::Airport, false)],
            seq![spec_road_record(23, District::Suburbs, false)],
            seq![spec_road_record(18, District::Suburbs, false), spec_road_record(22, District::Suburbs, false), spec_road_record(24, District::Suburbs, false)],
            seq![spec_road_record(23, District::Suburbs, false), spec_road_record(25, District::Suburbs, false), spec_road_record(10, District::IndustryPark, true), spec_road_record(27, District::IndustryPark, true)],
            seq![spec_road_record(24, District::Suburbs, false), spec_road_record(26, District::Suburbs, false)],
            seq![spec_road_record(20, District::Suburbs, false), spec_road_record(25, District::Suburbs, false), spec_road_record(27, District::Airport, false)],
            seq![spec_road_record(20, District::Airport, false), spec_road_record(21, District::Airport, false), spec_road_record(26, District::Airport, false), spec_road_record(28, District::Airport, false), spec_road_record(24, District::IndustryPark, true)],
            seq![spec_road_record(27, District::Airport, false)],
        ],
        neighbourhood_cost: seq![
            (District::IndustryPark, 1i16),
            (District::Port, 1i16),
            (District::Suburbs, 1i16),
            (District::RingRoad, 1i16),
            (District::CityCentre, 1i16),
            (District::Airport, 1i16),
        ],
    }
}

/// The default city after a scenario's structural change: the
/// accident scenario blocks the ring road from I6 to I7 one way, and
/// the rush-hour scenario closes the rail stations at Warehouses and
/// Terminal 1. The cost table here is the default one; scenarios put
/// their own traffic tables on top.
pub open spec fn spec_default_map_for_card(id: int) -> NodeMapView {
    if id == 4 {
        NodeMapView {
            edges: spec_default_map().edges.update(
                19,
                seq![
                    spec_road_record(16, District::CityCentre, false),
                    spec_road_record(18, District::RingRoad, false),
                    spec_with_restriction(
                        spec_road_record(20, District::RingRoad, false),
                        RestrictionType::OneWay,
                        false,
                    ),
                ],
            ),
            ..spec_default_map()
        }
    } else if id == 5 {
        NodeMapView {
            nodes: spec_default_map().nodes.update(
                24,
                NodeView { is_connected_to_rail: false, ..spec_default_map().nodes[24] },
            ).update(
                27,
                NodeView { is_connected_to_rail: false, ..spec_default_map().nodes[27] },
            ),
            ..spec_default_map()
        }
    } else {
        spec_default_map()
    }
}

impl NodeMap {
    /// An empty map: no nodes, no edges, no district costs.
    pub fn new() -> (r: Self)
        ensures
            r@.nodes.len() == 0,
            r@.edges.len() == 0,
            r@.neighbourhood_cost.len() == 0,
    {
        Self { nodes: Vec::new(), edges: Vec::new(), neighbourhood_cost: Vec::new() }
    }

    /// The node with the given identity, or an error if the map has
    /// none.
    pub fn get_node_by_id(&self, position_node_id: u8) -> (r: Result<Node, String>)
        ensures
            r is Ok <==> spec_has_node(self@.nodes, position_node_id),
            r is Ok ==> r->Ok_0@ == spec_node(self@.nodes, position_node_id),
    {
        let mut i: usize = 0;
        while i < self.nodes.len()
            invariant
                i <= self.nodes.len(),
                forall|k: int| 0 <= k < i ==> (#[trigger] self@.nodes[k]).id != position_node_id,
            decreases self.nodes.len() - i,
        {
            if self.nodes[i].id == position_node_id {
                proof {
                    lemma_node_at(self@.nodes, position_node_id, i as int);
                }
                return Ok(self.nodes[i].duplicate());
            }
            i = i + 1;
        }
        Err("There is no node with the given ID".to_owned())
    }

    /// All edge records of the node with the given identity, or nothing
    /// if the map stores no adjacency list for it.
    pub fn get_neighbour_relationships_of_node_with_id(
        &self,
        node_id: u8,
    ) -> (r: Option<Vec<NeighbourRelationship>>)
        ensures
            r is Some <==> (node_id as int) < self@.edges.len(),
            r is Some ==> r->0@ == self@.edges[node_id as int],
    {
        if (node_id as usize) < self.edges.len() {
            let list = &self.edges[node_id as usize];
            let mut out: Vec<NeighbourRelationship> = Vec::new();
            let mut i: usize = 0;
            while i < list.len()
                invariant
                    i <= list.len(),
                    out@ == list@.subrange(0, i as int),
                decreases list.len() - i,
            {
                out.push(list[i]);
                i = i + 1;
            }
            proof {
                assert(out@ =~= self@.edges[node_id as int]);
            }
            Some(out)
        } else {
            None
        }
    }

    /// Whether the two nodes are neighbours; an error if the first has
    /// no adjacency list at all.
    pub fn are_nodes_neighbours(&self, node_1: u8, node_2: u8) -> (r: Result<bool, String>)
        ensures
            r is Ok <==> (node_1 as int) < self@.edges.len(),
            r is Ok ==> (r->Ok_0 <==> spec_has_edge(self@, node_1, node_2)),
    {
        if (node_1 as usize) >= self.edges.len() {
            return Err(
                "There is no node with the first given ID that has any neighbour".to_owned(),
            );
        }
        let list = &self.edges[node_1 as usize];
        let mut i: usize = 0;
        while i < list.len()
            invariant
                i <= list.len(),
                forall|k: int| 0 <= k < i ==> (#[trigger] list@[k]).to != node_2,
            decreases list.len() - i,
        {
            if list[i].to == node_2 {
                proof {
                    assert(self@.edges[node_1 as int][i as int].to == node_2);
                }
                return Ok(true);
            }
            i = i + 1;
        }
        proof {
            assert(self@.edges[node_1 as int] == list@);
        }
        Ok(false)
    }

    /// Sets the base movement cost of one district, overwriting the
    /// first entry for it or adding one.
    pub fn change_neighbourhood_cost(&mut self, neighbourhood: District, cost: i16)
        ensures
            final(self)@.nodes == old(self)@.nodes,
            final(self)@.edges == old(self)@.edges,
            forall|d: District|
                #[trigger] spec_district_cost(final(self)@.neighbourhood_cost, d)
                    == if d == neighbourhood {
                        Some(cost)
                    } else {
                        spec_district_cost(old(self)@.neighbourhood_cost, d)
                    },
            !spec_has_district_cost(old(self)@.neighbourhood_cost, neighbourhood)
                ==> final(self)@.neighbourhood_cost == old(self)@.neighbourhood_cost.push(
                (neighbourhood, cost),
            ),
            spec_has_district_cost(old(self)@.neighbourhood_cost, neighbourhood)
                ==> final(self)@.neighbourhood_cost == old(self)@.neighbourhood_cost.update(
                spec_district_cost_idx(old(self)@.neighbourhood_cost, neighbourhood),
                (neighbourhood, cost),
            ),
    {
        let ghost orig = self@.neighbourhood_cost;
        let n = self.neighbourhood_cost.len();
        let mut i: usize = 0;
        while i < n
            invariant
                i <= n,
                n == self.neighbourhood_cost.len(),
                self@.nodes == old(self)@.nodes,
                self@.edges == old(self)@.edges,
                self@.neighbourhood_cost == orig,
                forall|k: int| 0 <= k < i ==> (#[trigger] orig[k]).0 != neighbourhood,
            decreases n - i,
        {
            if self.neighbourhood_cost[i].0 == neighbourhood {
                proof {
                    lemma_district_cost_at(orig, neighbourhood, i as int);
                }
                self.neighbourhood_cost[i] = (neighbourhood, cost);
                proof {
                    lemma_cost_update(orig, self@.neighbourhood_cost, i as int, neighbourhood, cost);
                }
                return;
            }
            i = i + 1;
        }
        self.neighbourhood_cost.push((neighbourhood, cost));
        proof {
            lemma_cost_push(orig, self@.neighbourhood_cost, neighbourhood, cost);
        }
    }

    /// The cost of entering the edge's district for the first time this
    /// turn: the floor of district base cost and edge cost. An error if
    /// the district has no base cost entry.
    pub fn first_time_in_district_cost(
        &self,
        neighbour_relationship: NeighbourRelationship,
    ) -> (r: Result<i16, String>)
        ensures
            r is Ok <==> spec_has_district_cost(
                self@.neighbourhood_cost,
                neighbour_relationship.neighbourhood,
            ),
            r is Ok ==> Some(r->Ok_0) == spec_district_entry_cost(
                self@.neighbourhood_cost,
                neighbour_relationship,
            ),
    {
        let d = neighbour_relationship.neighbourhood;
        let mut i: usize = 0;
        while i < self.neighbourhood_cost.len()
            invariant
                i <= self.neighbourhood_cost.len(),
                forall|k: int| 0 <= k < i ==> (#[trigger] self@.neighbourhood_cost[k]).0 != d,
            decreases self.neighbourhood_cost.len() - i,
        {
            if self.neighbourhood_cost[i].0 == d {
                proof {
                    lemma_district_cost_at(self@.neighbourhood_cost, d, i as int);
                }
                let base = self.neighbourhood_cost[i].1;
                if base >= neighbour_relationship.movement_cost {
                    return Ok(base);
                } else {
                    return Ok(neighbour_relationship.movement_cost);
                }
            }
            i = i + 1;
        }
        Err("There was no base cost entry for the district of the edge".to_owned())
    }

    /// Flips whether the node with the given identity is a rail
    /// station; an error if the map has no such node.
    pub fn toggle_rail_connection_on_node_with_id(&mut self, node_id: u8) -> (r: Result<(), String>)
        ensures
            r is Ok <==> spec_has_node(old(self)@.nodes, node_id),
            r is Ok ==> final(self)@.nodes == old(self)@.nodes.update(
                spec_node_idx(old(self)@.nodes, node_id),
                NodeView {
                    is_connected_to_rail: !spec_node(
                        old(self)@.nodes,
                        node_id,
                    ).is_connected_to_rail,
                    ..spec_node(old(self)@.nodes, node_id)
                },
            ),
            r is Err ==> final(self)@.nodes == old(self)@.nodes,
            final(self)@.edges == old(self)@.edges,
            final(self)@.neighbourhood_cost == old(self)@.neighbourhood_cost,
    {
        let mut i: usize = 0;
        while i < self.nodes.len()
            invariant
                self@ == old(self)@,
                i <= self.nodes.len(),
                forall|k: int| 0 <= k < i ==> (#[trigger] self@.nodes[k]).id != node_id,
            decreases self.nodes.len() - i,
        {
            if self.nodes[i].id == node_id {
                proof {
                    lemma_node_at(self@.nodes, node_id, i as int);
                }
                self.nodes[i].toggle_rail_connection();
                proof {
                    assert(final(self)@.nodes =~= old(self)@.nodes.update(
                        spec_node_idx(old(self)@.nodes, node_id),
                        NodeView {
                            is_connected_to_rail: !spec_node(
                                old(self)@.nodes,
                                node_id,
                            ).is_connected_to_rail,
                            ..spec_node(old(self)@.nodes, node_id)
                        },
                    ));
                }
                return Ok(());
            }
            i = i + 1;
        }
        Err("There is no node with the given ID".to_owned())
    }

    /// Copies the traffic table of a situation card into the district
    /// base costs, later rows overriding earlier ones.
    pub fn update_neighbourhood_cost(&mut self, situation_card: &SituationCard)
        ensures
            final(self)@.nodes == old(self)@.nodes,
            final(self)@.edges == old(self)@.edges,
            forall|d: District|
                #[trigger] spec_district_cost(final(self)@.neighbourhood_cost, d)
                    == spec_costs_applied(
                        old(self)@.neighbourhood_cost,
                        situation_card@.costs,
                        d,
                    ),
    {
        let ghost orig = self@.neighbourhood_cost;
        let ghost tuples = situation_card@.costs;
        let mut i: usize = 0;
        while i < situation_card.costs.len()
            invariant
                i <= situation_card.costs.len(),
                self@.nodes == old(self)@.nodes,
                self@.edges == old(self)@.edges,
                forall|d: District|
                    #[trigger] spec_district_cost(self@.neighbourhood_cost, d)
                        == spec_costs_applied_upto(orig, tuples, i as int, d),
            decreases situation_card.costs.len() - i,
        {
            let tuple = situation_card.costs[i];
            let cost = tuple.traffic.get_movement_cost();
            self.change_neighbourhood_cost(tuple.neighbourhood, cost);
            i = i + 1;
        }
    }

    /// Puts the restriction on every record of `from` leading to `to`.
    fn set_records(&mut self, from: u8, to: u8, rt: RestrictionType, modifiable: bool)
        requires
            (from as int) < old(self)@.edges.len(),
        ensures
            spec_restriction_set(old(self)@, final(self)@, from, to, rt, modifiable),
    {
        let list_len = self.edges[from as usize].len();
        let mut j: usize = 0;
        while j < list_len
            invariant
                self@.edges.len() == old(self)@.edges.len(),
                j <= list_len,
                list_len == self@.edges[from as int].len(),
                list_len == old(self)@.edges[from as int].len(),
                self@.nodes == old(self)@.nodes,
                self@.neighbourhood_cost == old(self)@.neighbourhood_cost,
                forall|i: int|
                    0 <= i < old(self)@.edges.len() && i != from
                        ==> #[trigger] self@.edges[i] == old(self)@.edges[i],
                forall|k: int|
                    0 <= k < j ==> #[trigger] self@.edges[from as int][k]
                        == if old(self)@.edges[from as int][k].to == to {
                            spec_with_restriction(old(self)@.edges[from as int][k], rt, modifiable)
                        } else {
                            old(self)@.edges[from as int][k]
                        },
                forall|k: int|
                    j <= k < list_len ==> #[trigger] self@.edges[from as int][k]
                        == old(self)@.edges[from as int][k],
            decreases list_len - j,
        {
            let ghost prev = self.edges@;
            let ghost prev_view = self@;
            if self.edges[from as usize][j].to == to {
                let e = self.edges[from as usize][j];
                self.edges[from as usize][j] = NeighbourRelationship {
                    restriction: Some(rt),
                    is_modifiable: modifiable,
                    blocked: e.blocked || rt == RestrictionType::OneWay,
                    ..e
                };
            }
            proof {
                assert forall|i: int| 0 <= i < prev.len() && i != from implies
                    #[trigger] self@.edges[i] == old(self)@.edges[i] by {
                    assert(self.edges@[i] == prev[i]);
                    assert(self@.edges[i] == prev[i]@);
                    assert(prev_view.edges[i] == prev[i]@);
                    assert(prev_view.edges[i] == old(self)@.edges[i]);
                }
            }
            j = j + 1;
        }
    }

    /// Clears the restriction from every record of `from` leading to
    /// `to`.
    fn clear_records(&mut self, from: u8, to: u8)
        requires
            (from as int) < old(self)@.edges.len(),
        ensures
            spec_restriction_removed(old(self)@, final(self)@, from, to),
    {
        let list_len = self.edges[from as usize].len();
        let mut j: usize = 0;
        while j < list_len
            invariant
                self@.edges.len() == old(self)@.edges.len(),
                j <= list_len,
                list_len == self@.edges[from as int].len(),
                list_len == old(self)@.edges[from as int].len(),
                self@.nodes == old(self)@.nodes,
                self@.neighbourhood_cost == old(self)@.neighbourhood_cost,
                forall|i: int|
                    0 <= i < old(self)@.edges.len() && i != from
                        ==> #[trigger] self@.edges[i] == old(self)@.edges[i],
                forall|k: int|
                    0 <= k < j ==> #[trigger] self@.edges[from as int][k]
                        == if old(self)@.edges[from as int][k].to == to {
                            spec_without_restriction(old(self)@.edges[from as int][k])
                        } else {
                            old(self)@.edges[from as int][k]
                        },
                forall|k: int|
                    j <= k < list_len ==> #[trigger] self@.edges[from as int][k]
                        == old(self)@.edges[from as int][k],
            decreases list_len - j,
        {
            let ghost prev = self.edges@;
            let ghost prev_view = self@;
            if self.edges[from as usize][j].to == to {
                let e = self.edges[from as usize][j];
                self.edges[from as usize][j] = NeighbourRelationship {
                    restriction: None,
                    blocked: false,
                    ..e
                };
            }
            proof {
                assert forall|i: int| 0 <= i < prev.len() && i != from implies
                    #[trigger] self@.edges[i] == old(self)@.edges[i] by {
                    assert(self.edges@[i] == prev[i]);
                    assert(self@.edges[i] == prev[i]@);
                    assert(prev_view.edges[i] == prev[i]@);
                    assert(prev_view.edges[i] == old(self)@.edges[i]);
                }
            }
            j = j + 1;
        }
    }

    /// Whether every record of `from` leading to `to` may be modified.
    fn records_modifiable(&self, from: u8, to: u8) -> (r: bool)
        requires
            (from as int) < self@.edges.len(),
        ensures
            r == spec_records_modifiable(self@, from, to),
    {
        let list_len = self.edges[from as usize].len();
        let mut j: usize = 0;
        while j < list_len
            invariant
                j <= list_len,
                list_len == self@.edges[from as int].len(),
                forall|k: int|
                    0 <= k < j && (#[trigger] self@.edges[from as int][k]).to == to
                        ==> self@.edges[from as int][k].is_modifiable,
            decreases list_len - j,
        {
            let e = self.edges[from as usize][j];
            if e.to == to && !e.is_modifiable {
                return false;
            }
            j = j + 1;
        }
        true
    }

    /// Puts a restriction on one direction of an edge, on every record
    /// of `from` leading to `to`; an error if the nodes are not
    /// neighbours.
    fn set_restriction_on_relationship(
        &mut self,
        from_node_id: u8,
        to_node_id: u8,
        restriction_type: RestrictionType,
        modifiable: bool,
    ) -> (r: Result<(), String>)
        ensures
            r is Ok <==> spec_has_edge(old(self)@, from_node_id, to_node_id),
            r is Ok ==> spec_restriction_set(
                old(self)@,
                final(self)@,
                from_node_id,
                to_node_id,
                restriction_type,
                modifiable,
            ),
            r is Err ==> final(self)@ == old(self)@,
    {
        match self.are_nodes_neighbours(from_node_id, to_node_id) {
            Ok(n) => {
                if !n {
                    return Err(
                        "The two given nodes are not neighbours, so no restriction can be put between them".to_owned(),
                    );
                }
            },
            Err(e) => {
                return Err(e);
            },
        }
        self.set_records(from_node_id, to_node_id, restriction_type, modifiable);
        Ok(())
    }

    /// Removes the restriction from one direction of an edge; an error
    /// if the nodes are not neighbours or a record is structurally
    /// fixed.
    fn remove_restriction_from_relationship(
        &mut self,
        from_node_id: u8,
        to_node_id: u8,
    ) -> (r: Result<(), String>)
        ensures
            r is Ok <==> spec_has_edge(old(self)@, from_node_id, to_node_id)
                && spec_records_modifiable(old(self)@, from_node_id, to_node_id),
            r is Ok ==> spec_restriction_removed(
                old(self)@,
                final(self)@,
                from_node_id,
                to_node_id,
            ),
            r is Err ==> final(self)@ == old(self)@,
    {
        match self.are_nodes_neighbours(from_node_id, to_node_id) {
            Ok(n) => {
                if !n {
                    return Err(
                        "The two given nodes are not neighbours, so no restriction can be removed between them".to_owned(),
                    );
                }
            },
            Err(e) => {
                return Err(e);
            },
        }
        if !self.records_modifiable(from_node_id, to_node_id) {
            return Err("The edge between the two given nodes is not modifiable".to_owned());
        }
        self.clear_records(from_node_id, to_node_id);
        Ok(())
    }

    /// Adds the given edge restriction to the map, to both directions
    /// of the road, except one-way restrictions, which block only the
    /// direction from the first node to the second. Either both
    /// directions are updated or, on an error, neither.
    pub fn set_restriction_on_edge(
        &mut self,
        edge_restriction: &EdgeRestriction,
        modifiable: bool,
    ) -> (r: Result<(), String>)
        ensures
            r is Ok <==> spec_has_edge(
                old(self)@,
                edge_restriction.node_one,
                edge_restriction.node_two,
            ) && (edge_restriction.edge_restriction == RestrictionType::OneWay || spec_has_edge(
                old(self)@,
                edge_restriction.node_two,
                edge_restriction.node_one,
            )),
            r is Ok && edge_restriction.edge_restriction == RestrictionType::OneWay
                ==> spec_restriction_set(
                    old(self)@,
                    final(self)@,
                    edge_restriction.node_one,
                    edge_restriction.node_two,
                    edge_restriction.edge_restriction,
                    modifiable,
                ),
            r is Ok && edge_restriction.edge_restriction != RestrictionType::OneWay
                ==> exists|mid: NodeMapView|
                    spec_restriction_set(
                        old(self)@,
                        mid,
                        edge_restriction.node_one,
                        edge_restriction.node_two,
                        edge_restriction.edge_restriction,
                        modifiable,
                    ) && spec_restriction_set(
                        mid,
                        final(self)@,
                        edge_restriction.node_two,
                        edge_restriction.node_one,
                        edge_restriction.edge_restriction,
                        modifiable,
                    ),
            r is Err ==> final(self)@ == old(self)@,
    {
        let n1 = edge_restriction.node_one;
        let n2 = edge_restriction.node_two;
        let rt = edge_restriction.edge_restriction;
        match self.are_nodes_neighbours(n1, n2) {
            Ok(n) => {
                if !n {
                    return Err(
                        "The two given nodes are not neighbours, so no restriction can be put between them".to_owned(),
                    );
                }
            },
            Err(e) => {
                return Err(e);
            },
        }
        if rt != RestrictionType::OneWay {
            match self.are_nodes_neighbours(n2, n1) {
                Ok(n) => {
                    if !n {
                        return Err(
                            "The reverse direction of the edge is missing, so no restriction can be put on it".to_owned(),
                        );
                    }
                },
                Err(e) => {
                    return Err(e);
                },
            }
        }
        match self.set_restriction_on_relationship(n1, n2, rt, modifiable) {
            Ok(_) => (),
            Err(e) => {
                return Err(e);
            },
        }
        if rt == RestrictionType::OneWay {
            return Ok(());
        }
        let ghost mid = self@;
        proof {
            let w = choose|j: int|
                0 <= j < old(self)@.edges[n2 as int].len()
                    && (#[trigger] old(self)@.edges[n2 as int][j]).to == n1;
            assert(mid.edges[n2 as int][w].to == n1);
        }
        match self.set_restriction_on_relationship(n2, n1, rt, modifiable) {
            Ok(_) => Ok(()),
            Err(e) => Err(e),
        }
    }

    /// Removes the given edge restriction from both directions of the
    /// road. Either both directions are updated or, on an error,
    /// neither.
    pub fn remove_restriction_from_edge(
        &mut self,
        edge_restriction: &EdgeRestriction,
    ) -> (r: Result<(), String>)
        ensures
            r is Ok <==> spec_has_edge(
                old(self)@,
                edge_restriction.node_one,
                edge_restriction.node_two,
            ) && spec_has_edge(old(self)@, edge_restriction.node_two, edge_restriction.node_one)
                && spec_records_modifiable(
                old(self)@,
                edge_restriction.node_one,
                edge_restriction.node_two,
            ) && spec_records_modifiable(
                old(self)@,
                edge_restriction.node_two,
                edge_restriction.node_one,
            ),
            r is Ok ==> exists|mid: NodeMapView|
                spec_restriction_removed(
                    old(self)@,
                    mid,
                    edge_restriction.node_one,
                    edge_restriction.node_two,
                ) && spec_restriction_removed(
                    mid,
                    final(self)@,
                    edge_restriction.node_two,
                    edge_restriction.node_one,
                ),
            r is Err ==> final(self)@ == old(self)@,
    {
        let n1 = edge_restriction.node_one;
        let n2 = edge_restriction.node_two;
        match self.are_nodes_neighbours(n1, n2) {
            Ok(n) => {
                if !n {
                    return Err(
                        "The two given nodes are not neighbours, so no restriction can be removed between them".to_owned(),
                    );
                }
            },
            Err(e) => {
                return Err(e);
            },
        }
        match self.are_nodes_neighbours(n2, n1) {
            Ok(n) => {
                if !n {
                    return Err(
                        "The reverse direction of the edge is missing, so no restriction can be removed from it".to_owned(),
                    );
                }
            },
            Err(e) => {
                return Err(e);
            },
        }
        if !self.records_modifiable(n1, n2) {
            return Err("The edge between the two given nodes is not modifiable".to_owned());
        }
        if !self.records_modifiable(n2, n1) {
            return Err("The edge between the two given nodes is not modifiable".to_owned());
        }
        match self.remove_restriction_from_relationship(n1, n2) {
            Ok(_) => (),
            Err(e) => {
                return Err(e);
            },
        }
        let ghost mid = self@;
        proof {
            let w = choose|j: int|
                0 <= j < old(self)@.edges[n2 as int].len()
                    && (#[trigger] old(self)@.edges[n2 as int][j]).to == n1;
            assert(mid.edges[n2 as int][w].to == n1);
            assert forall|j: int|
                0 <= j < mid.edges[n2 as int].len() && (#[trigger] mid.edges[n2 as int][j]).to
                    == n1 implies mid.edges[n2 as int][j].is_modifiable by {
                assert(old(self)@.edges[n2 as int][j].to == n1
                    || mid.edges[n2 as int][j] == old(self)@.edges[n2 as int][j]);
            }
        }
        match self.remove_restriction_from_relationship(n2, n1) {
            Ok(_) => Ok(()),
            Err(e) => Err(e),
        }
    }

    /// The default city: twenty-nine named nodes, the default road and
    /// rail network, and a base movement cost of one in every district,
    /// equal to [`spec_default_map`].
    #[verifier::spinoff_prover]
    #[verifier::rlimit(100)]
    pub fn new_default() -> (r: Self)
        ensures
            r@ == spec_default_map(),
            spec_map_wf(r@),
            r@.nodes.len() == 29,
            forall|d: District| #[trigger] spec_district_cost(r@.neighbourhood_cost, d) == Some(1i16),
            spec_has_edge(r@, 19, 20),
    {
        let mut map = Self::new();

        map.nodes.push(named_node(0, "Factory", false, false));
        map.nodes.push(named_node(1, "Refinery", false, false));
        map.nodes.push(named_node(2, "Industry Park", true, true));
        map.nodes.push(named_node(3, "I1", false, false));
        map.nodes.push(named_node(4, "I2", false, false));
        map.nodes.push(named_node(5, "Port", false, false));
        map.nodes.push(named_node(6, "I3", false, false));
        map.nodes.push(named_node(7, "Beach", false, false));
        map.nodes.push(named_node(8, "Northside", false, false));
        map.nodes.push(named_node(9, "I4", false, true));
        map.nodes.push(named_node(10, "Central Station", true, false));
        map.nodes.push(named_node(11, "City Square", false, false));
        map.nodes.push(named_node(12, "Concert Hall", false, false));
        map.nodes.push(named_node(13, "Eastside Mart", false, true));
        map.nodes.push(named_node(14, "East Town", false, false));
        map.nodes.push(named_node(15, "Food Court", false, false));
        map.nodes.push(named_node(16, "City Park", false, false));
        map.nodes.push(named_node(17, "Quarry", false, false));
        map.nodes.push(named_node(18, "I5", false, false));
        map.nodes.push(named_node(19, "I6", false, true));
        map.nodes.push(named_node(20, "I7", false, false));
        map.nodes.push(named_node(21, "I8", false, true));
        map.nodes.push(named_node(22, "West Town", false, false));
        map.nodes.push(named_node(23, "Lakeside", false, false));
        map.nodes.push(named_node(24, "Warehouses", true, false));
        map.nodes.push(named_node(25, "I9", false, false));
        map.nodes.push(named_node(26, "I10", false, true));
        map.nodes.push(named_node(27, "Terminal 1", true, true));
        map.nodes.push(named_node(28, "Terminal 2", false, false));

        let mut list: Vec<NeighbourRelationship> = Vec::new();
        list.push(NeighbourRelationship::new(1, District::IndustryPark, 1, false));
        list.push(NeighbourRelationship::new(2, District::IndustryPark, 1, false));
        map.edges.push(list);
        let mut list: Vec<NeighbourRelationship> = Vec::new();
        list.push(NeighbourRelationship::new(0, District::IndustryPark, 1, false));
        list.push(NeighbourRelationship::new(2, District::IndustryPark, 1, false));
        map.edges.push(list);
        let mut list: Vec<NeighbourRelationship> = Vec::new();
        list.push(NeighbourRelationship::new(0, District::IndustryPark, 1, false));
        list.push(NeighbourRelationship::new(1, District::IndustryPark, 1, false));
        list.push(NeighbourRelationship::new(3, District::Suburbs, 1, false));
        list.push(NeighbourRelationship::new(10, District::IndustryPark, 1, true));
        map.edges.push(list);
        let mut list: Vec<NeighbourRelationship> = Vec::new();
        list.push(NeighbourRelationship::new(2, District::Suburbs, 1, false));
        list.push(NeighbourRelationship::new(4, District::RingRoad, 1, false));
        list.push(NeighbourRelationship::new(9, District::RingRoad, 1, false));
        map.edges.push(list);
        let mut list: Vec<NeighbourRelationship> = Vec::new();
        list.push(NeighbourRelationship::new(3, District::RingRoad, 1, false));
        list.push(NeighbourRelationship::new(5, District::Port, 1, false));
        list.push(NeighbourRelationship::new(6, District::RingRoad, 1, false));
        map.edges.push(list);
        let mut list: Vec<NeighbourRelationship> = Vec::new();
        list.push(NeighbourRelationship::new(4, District::Port, 1, false));
        map.edges.push(list);
        let mut list: Vec<NeighbourRelationship> = Vec::new();
        list.push(NeighbourRelationship::new(4, District::RingRoad, 1, false));
        list.push(NeighbourRelationship::new(13, District::RingRoad, 1, false));
        list.push(NeighbourRelationship::new(7, District::Suburbs, 1, false));
        map.edges.push(list);
        let mut list: Vec<NeighbourRelationship> = Vec::new();
        list.push(NeighbourRelationship::new(6, District::Suburbs, 1, false));
        list.push(NeighbourRelationship::new(8, District::Suburbs, 1, false));
        map.edges.push(list);
        let mut list: Vec<NeighbourRelationship> = Vec::new();
        list.push(NeighbourRelationship::new(7, District::Suburbs, 1, false));
        map.edges.push(list);
        let mut list: Vec<NeighbourRelationship> = Vec::new();
        list.push(NeighbourRelationship::new(3, District::RingRoad, 1, false));
        list.push(NeighbourRelationship::new(10, District::CityCentre, 1, false));
        list.push(NeighbourRelationship::new(18, District::RingRoad, 1, false));
        map.edges.push(list);
        let mut list: Vec<NeighbourRelationship> = Vec::new();
        list.push(NeighbourRelationship::new(9, District::CityCentre, 1, false));
        list.push(NeighbourRelationship::new(11, District::CityCentre, 1, false));
        list.push(NeighbourRelationship::new(15, District::CityCentre, 1, false));
        list.push(NeighbourRelationship::new(2, District::IndustryPark, 1, true));
        list.push(NeighbourRelationship::new(24, District::IndustryPark, 1, true));
        map.edges.push(list);
        let mut list: Vec<NeighbourRelationship> = Vec::new();
        list.push(NeighbourRelationship::new(10, District::CityCentre, 1, false));
        list.push(NeighbourRelationship::new(12, District::CityCentre, 1, false));
        list.push(NeighbourRelationship::new(16, District::CityCentre, 1, false));
        map.edges.push(list);
        let mut list: Vec<NeighbourRelationship> = Vec::new();
        list.push(NeighbourRelationship::new(11, District::CityCentre, 1, false));
        list.push(NeighbourRelationship::new(13, District::CityCentre, 1, false));
        map.edges.push(list);
        let mut list: Vec<NeighbourRelationship> = Vec::new();
        list.push(NeighbourRelationship::new(6, District::RingRoad, 1, false));
        list.push(NeighbourRelationship::new(12, District::CityCentre, 1, false));
        list.push(NeighbourRelationship::new(14, District::Suburbs, 1, false));
        list.push(NeighbourRelationship::new(20, District::RingRoad, 1, false));
        map.edges.push(list);
        let mut list: Vec<NeighbourRelationship> = Vec::new();
        list.push(NeighbourRelationship::new(13, District::Suburbs, 1, false));
        list.push(NeighbourRelationship::new(21, District::Suburbs, 1, false));
        map.edges.push(list);
        let mut list: Vec<NeighbourRelationship> = Vec::new();
        list.push(NeighbourRelationship::new(10, District::CityCentre, 1, false));
        list.push(NeighbourRelationship::new(16, District::CityCentre, 1, false));
        map.edges.push(list);
        let mut list: Vec<NeighbourRelationship> = Vec::new();
        list.push(NeighbourRelationship::new(11, District::CityCentre, 1, false));
        list.push(NeighbourRelationship::new(15, District::CityCentre, 1, false));
        list.push(NeighbourRelationship::new(19, District::CityCentre, 1, false));
        map.edges.push(list);
        let mut list: Vec<NeighbourRelationship> = Vec::new();
        list.push(NeighbourRelationship::new(18, District::Suburbs, 1, false));
        map.edges.push(list);
        let mut list: Vec<NeighbourRelationship> = Vec::new();
        list.push(NeighbourRelationship::new(9, District::RingRoad, 1, false));
        list.push(NeighbourRelationship::new(17, District::Suburbs, 1, false));
        list.push(NeighbourRelationship::new(19, District::RingRoad, 1, false));
        list.push(NeighbourRelationship::new(23, District::Suburbs, 1, false));
        map.edges.push(list);
        let mut list: Vec<NeighbourRelationship> = Vec::new();
        list.push(NeighbourRelationship::new(16, District::CityCentre, 1, false));
        list.push(NeighbourRelationship::new(18, District::RingRoad, 1, false));
        list.push(NeighbourRelationship::new(20, District::RingRoad, 1, false));
        map.edges.push(list);
        let mut list: Vec<NeighbourRelationship> = Vec::new();
        list.push(NeighbourRelationship::new(13, District::RingRoad, 1, false));
        list.push(NeighbourRelationship::new(19, District::RingRoad, 1, false));
        list.push(NeighbourRelationship::new(26, District::Suburbs, 1, false));
        list.push(NeighbourRelationship::new(27, District::Airport, 1, false));
        map.edges.push(list);
        let mut list: Vec<NeighbourRelationship> = Vec::new();
        list.push(NeighbourRelationship::new(14, District::Suburbs, 1, false));
        list.push(NeighbourRelationship::new(27, District::Airport, 1, false));
        map.edges.push(list);
        let mut list: Vec<NeighbourRelationship> = Vec::new();
        list.push(NeighbourRelationship::new(23, District::Suburbs, 1, false));
        map.edges.push(list);
        let mut list: Vec<NeighbourRelationship> = Vec::new();
        list.push(NeighbourRelationship::new(18, District::Suburbs, 1, false));
        list.push(NeighbourRelationship::new(22, District::Suburbs, 1, false));
        list.push(NeighbourRelationship::new(24, District::Suburbs, 1, false));
        map.edges.push(list);
        let mut list: Vec<NeighbourRelationship> = Vec::new();
        list.push(NeighbourRelationship::new(23, District::Suburbs, 1, false));
        list.push(NeighbourRelationship::new(25, District::Suburbs, 1, false));
        list.push(NeighbourRelationship::new(10, District::IndustryPark, 1, true));
        list.push(NeighbourRelationship::new(27, District::IndustryPark, 1, true));
        map.edges.push(list);
        let mut list: Vec<NeighbourRelationship> = Vec::new();
        list.push(NeighbourRelationship::new(24, District::Suburbs, 1, false));
        list.push(NeighbourRelationship::new(26, District::Suburbs, 1, false));
        map.edges.push(list);
        let mut list: Vec<NeighbourRelationship> = Vec::new();
        list.push(NeighbourRelationship::new(20, District::Suburbs, 1, false));
        list.push(NeighbourRelationship::new(25, District::Suburbs, 1, false));
        list.push(NeighbourRelationship::new(27, District::Airport, 1, false));
        map.edges.push(list);
        let mut list: Vec<NeighbourRelationship> = Vec::new();
        list.push(NeighbourRelationship::new(20, District::Airport, 1, false));
        list.push(NeighbourRelationship::new(21, District::Airport, 1, false));
        list.push(NeighbourRelationship::new(26, District::Airport, 1, false));
        list.push(NeighbourRelationship::new(28, District::Airport, 1, false));
        list.push(NeighbourRelationship::new(24, District::IndustryPark, 1, true));
        map.edges.push(list);
        let mut list: Vec<NeighbourRelationship> = Vec::new();
        list.push(NeighbourRelationship::new(27, District::Airport, 1, false));
        map.edges.push(list);

        proof {
            assert(map@.nodes =~= spec_default_map().nodes);
            assert forall|i: int| 0 <= i < 29 implies map@.edges[i]
                =~= spec_default_map().edges[i] by {}
            assert(map@.edges =~= spec_default_map().edges);
        }

        let mut cur = District::first();
        map.change_neighbourhood_cost(cur, 1);
        proof {
            assert(map@.neighbourhood_cost =~= spec_default_map().neighbourhood_cost.subrange(
                0,
                1,
            ));
        }
        while cur != District::Airport
            invariant
                map@.nodes == spec_default_map().nodes,
                map@.edges == spec_default_map().edges,
                map@.neighbourhood_cost == spec_default_map().neighbourhood_cost.subrange(
                    0,
                    crate::enums::spec_district_order(cur) + 1,
                ),
            decreases 5 - crate::enums::spec_district_order(cur),
        {
            match cur.next() {
                Some(n) => {
                    cur = n;
                    proof {
                        assert(!spec_has_district_cost(map@.neighbourhood_cost, cur));
                    }
                    map.change_neighbourhood_cost(cur, 1);
                    proof {
                        assert(map@.neighbourhood_cost
                            =~= spec_default_map().neighbourhood_cost.subrange(
                            0,
                            crate::enums::spec_district_order(cur) + 1,
                        ));
                    }
                },
                None => {
                    proof {
                        assert(false);
                    }
                },
            }
        }
        proof {
            assert(map@.neighbourhood_cost =~= spec_default_map().neighbourhood_cost);
            assert(map@ == spec_default_map());
            assert(spec_map_wf(map@)) by {
                assert forall|i: int, j: int|
                    0 <= i < map@.edges.len() && 0 <= j < map@.edges[i].len()
                        implies (#[trigger] map@.edges[i][j]).to < map@.nodes.len() by {}
            }
            assert forall|d: District|
                #[trigger] spec_district_cost(map@.neighbourhood_cost, d) == Some(1i16) by {
                let costs = spec_default_map().neighbourhood_cost;
                if d == District::IndustryPark {
                    lemma_district_cost_at(costs, d, 0);
                } else if d == District::Port {
                    lemma_district_cost_at(costs, d, 1);
                } else if d == District::Suburbs {
                    lemma_district_cost_at(costs, d, 2);
                } else if d == District::RingRoad {
                    lemma_district_cost_at(costs, d, 3);
                } else if d == District::CityCentre {
                    lemma_district_cost_at(costs, d, 4);
                } else {
                    lemma_district_cost_at(costs, d, 5);
                }
            }
            assert(map@.edges[19][2].to == 20);
        }

        map
    }

    /// Replaces this map with the default city.
    pub fn reset(&mut self)
        ensures
            final(self)@ == spec_default_map(),
            spec_map_wf(final(self)@),
            final(self)@.nodes.len() == 29,
            forall|d: District|
                #[trigger] spec_district_cost(final(self)@.neighbourhood_cost, d) == Some(1i16),
            spec_has_edge(final(self)@, 19, 20),
    {
        *self = Self::new_default();
    }

    /// A copy whose mathematical value equals this map's.
    pub fn duplicate(&self) -> (r: Self)
        ensures
            r@ == self@,
    {
        let mut nodes: Vec<Node> = Vec::new();
        let mut i: usize = 0;
        while i < self.nodes.len()
            invariant
                i <= self.nodes.len(),
                nodes@.len() == i,
                forall|k: int| 0 <= k < i ==> #[trigger] nodes@[k]@ == self@.nodes[k],
            decreases self.nodes.len() - i,
        {
            nodes.push(self.nodes[i].duplicate());
            i = i + 1;
        }
        let mut edges: Vec<Vec<NeighbourRelationship>> = Vec::new();
        let mut j: usize = 0;
        while j < self.edges.len()
            invariant
                j <= self.edges.len(),
                edges@.len() == j,
                forall|k: int| 0 <= k < j ==> #[trigger] edges@[k]@ == self@.edges[k],
            decreases self.edges.len() - j,
        {
            let list = &self.edges[j];
            let mut out: Vec<NeighbourRelationship> = Vec::new();
            let mut m: usize = 0;
            while m < list.len()
                invariant
                    m <= list.len(),
                    out@ == list@.subrange(0, m as int),
                decreases list.len() - m,
            {
                out.push(list[m]);
                m = m + 1;
            }
            proof {
                assert(out@ =~= self@.edges[j as int]);
            }
            edges.push(out);
            j = j + 1;
        }
        let mut costs: Vec<(District, i16)> = Vec::new();
        let mut c: usize = 0;
        while c < self.neighbourhood_cost.len()
            invariant
                c <= self.neighbourhood_cost.len(),
                costs@ == self@.neighbourhood_cost.subrange(0, c as int),
            decreases self.neighbourhood_cost.len() - c,
        {
            costs.push(self.neighbourhood_cost[c]);
            c = c + 1;
        }
        let r = Self { nodes, edges, neighbourhood_cost: costs };
        proof {
            assert(r@.nodes =~= self@.nodes);
            assert(r@.edges =~= self@.edges);
            assert(r@.neighbourhood_cost =~= self@.neighbourhood_cost);
        }
        r
    }
}

/// A node with its identity, name and connection flags all given.
fn named_node(id: u8, name: &str, rail: bool, parking: bool) -> (r: Node)
    ensures
        r@.id == id,
        r@.name == name@,
        r@.is_connected_to_rail == rail,
        r@.is_parking_spot == parking,
{
    let mut n = Node::new(id, name.to_owned());
    if rail {
        n.toggle_rail_connection();
    }
    n.is_parking_spot = parking;
    n
}

/// What an edge record becomes when the given restriction is put on
/// it: one-way restrictions also block the record's direction.
pub open spec fn spec_with_restriction(
    e: NeighbourRelationship,
    rt: RestrictionType,
    modifiable: bool,
) -> NeighbourRelationship {
    NeighbourRelationship {
        restriction: Some(rt),
        is_modifiable: modifiable,
        blocked: e.blocked || rt == RestrictionType::OneWay,
        ..e
    }
}

/// What an edge record becomes when its restriction is removed: it is
/// unrestricted and traversable again.
pub open spec fn spec_without_restriction(e: NeighbourRelationship) -> NeighbourRelationship {
    NeighbourRelationship { restriction: None, blocked: false, ..e }
}

/// The adjacency list of `from` in `new_m` carries the restriction on
/// every record leading to `to`, and nothing else of the map changed.
pub open spec fn spec_restriction_set(
    old_m: NodeMapView,
    new_m: NodeMapView,
    from: u8,
    to: u8,
    rt: RestrictionType,
    modifiable: bool,
) -> bool {
    &&& new_m.nodes == old_m.nodes
    &&& new_m.neighbourhood_cost == old_m.neighbourhood_cost
    &&& new_m.edges.len() == old_m.edges.len()
    &&& forall|i: int| 0 <= i < old_m.edges.len() && i != from ==> #[trigger] new_m.edges[i] == old_m.edges[i]
    &&& (from as int) < old_m.edges.len() ==> {
        &&& new_m.edges[from as int].len() == old_m.edges[from as int].len()
        &&& forall|j: int|
            0 <= j < old_m.edges[from as int].len()
                ==> #[trigger] new_m.edges[from as int][j]
                    == if old_m.edges[from as int][j].to == to {
                        spec_with_restriction(old_m.edges[from as int][j], rt, modifiable)
                    } else {
                        old_m.edges[from as int][j]
                    }
    }
}

/// The adjacency list of `from` in `new_m` has the restriction removed
/// from every record leading to `to`, and nothing else of the map
/// changed.
pub open spec fn spec_restriction_removed(
    old_m: NodeMapView,
    new_m: NodeMapView,
    from: u8,
    to: u8,
) -> bool {
    &&& new_m.nodes == old_m.nodes
    &&& new_m.neighbourhood_cost == old_m.neighbourhood_cost
    &&& new_m.edges.len() == old_m.edges.len()
    &&& forall|i: int| 0 <= i < old_m.edges.len() && i != from ==> #[trigger] new_m.edges[i] == old_m.edges[i]
    &&& (from as int) < old_m.edges.len() ==> {
        &&& new_m.edges[from as int].len() == old_m.edges[from as int].len()
        &&& forall|j: int|
            0 <= j < old_m.edges[from as int].len()
                ==> #[trigger] new_m.edges[from as int][j]
                    == if old_m.edges[from as int][j].to == to {
                        spec_without_restriction(old_m.edges[from as int][j])
                    } else {
                        old_m.edges[from as int][j]
                    }
    }
}

/// Every record of `from` leading to `to` may be modified.
pub open spec fn spec_records_modifiable(m: NodeMapView, from: u8, to: u8) -> bool {
    forall|j: int|
        0 <= j < m.edges[from as int].len() && (#[trigger] m.edges[from as int][j]).to == to
            ==> m.edges[from as int][j].is_modifiable
}

/// The cost charged on first entering the district of this edge: the
/// floor of the district's base cost and the edge's own cost, or
/// nothing if the district has no base cost entry.
pub open spec fn spec_district_entry_cost(
    costs: Seq<(District, i16)>,
    edge: NeighbourRelationship,
) -> Option<i16> {
    match spec_district_cost(costs, edge.neighbourhood) {
        Some(base) => Some(spec_entry_cost(base, edge.movement_cost)),
        None => None,
    }
}

/// The base cost of district `d` after the first `upto` rows of a cost
/// table have been written over `orig`: the last of those rows for `d`
/// wins, and districts without a row keep their old cost.
pub open spec fn spec_costs_applied_upto(
    orig: Seq<(District, i16)>,
    tuples: Seq<crate::cards::CostTuple>,
    upto: int,
    d: District,
) -> Option<i16>
    decreases upto,
{
    if upto <= 0 {
        spec_district_cost(orig, d)
    } else if tuples[upto - 1].neighbourhood == d {
        Some(spec_traffic_cost(tuples[upto - 1].traffic))
    } else {
        spec_costs_applied_upto(orig, tuples, upto - 1, d)
    }
}

/// The base cost of district `d` after a whole cost table has been
/// written over `orig`.
pub open spec fn spec_costs_applied(
    orig: Seq<(District, i16)>,
    tuples: Seq<crate::cards::CostTuple>,
    d: District,
) -> Option<i16> {
    spec_costs_applied_upto(orig, tuples, tuples.len() as int, d)
}

proof fn lemma_cost_keys_equal(a: Seq<(District, i16)>, b: Seq<(District, i16)>, d: District)
    requires
        a.len() == b.len(),
        forall|k: int| 0 <= k < a.len() ==> (#[trigger] a[k]).0 == (#[trigger] b[k]).0,
    ensures
        spec_has_district_cost(a, d) == spec_has_district_cost(b, d),
        spec_has_district_cost(a, d) ==> spec_district_cost_idx(a, d) == spec_district_cost_idx(
            b,
            d,
        ),
{
    if spec_has_district_cost(a, d) {
        let w = choose|j: int| 0 <= j < a.len() && (#[trigger] a[j]).0 == d;
        assert(b[w].0 == d);
        lemma_district_cost_minimal_exists(a, d, w);
        let j = spec_district_cost_idx(a, d);
        assert(0 <= j < a.len() && a[j].0 == d && (forall|k: int|
            0 <= k < j ==> (#[trigger] a[k]).0 != d));
        assert forall|k: int| 0 <= k < j implies (#[trigger] b[k]).0 != d by {
            assert(a[k].0 != d);
        }
        lemma_district_cost_at(b, d, j);
    } else if spec_has_district_cost(b, d) {
        let w = choose|j: int| 0 <= j < b.len() && (#[trigger] b[j]).0 == d;
        assert(a[w].0 == d);
    }
}

proof fn lemma_cost_update(
    orig: Seq<(District, i16)>,
    updated: Seq<(District, i16)>,
    i: int,
    neighbourhood: District,
    cost: i16,
)
    requires
        0 <= i < orig.len(),
        orig[i].0 == neighbourhood,
        forall|k: int| 0 <= k < i ==> (#[trigger] orig[k]).0 != neighbourhood,
        updated == orig.update(i, (neighbourhood, cost)),
    ensures
        forall|d: District|
            #[trigger] spec_district_cost(updated, d) == if d == neighbourhood {
                Some(cost)
            } else {
                spec_district_cost(orig, d)
            },
{
    assert forall|d: District| #[trigger] spec_district_cost(updated, d) == if d == neighbourhood {
        Some(cost)
    } else {
        spec_district_cost(orig, d)
    } by {
        if d == neighbourhood {
            lemma_district_cost_at(updated, d, i);
        } else {
            lemma_cost_keys_equal(orig, updated, d);
            if spec_has_district_cost(orig, d) {
                let j = spec_district_cost_idx(orig, d);
                lemma_district_cost(orig, d);
                assert(j != i);
                assert(updated[j] == orig[j]);
                lemma_district_cost(updated, d);
            }
        }
    }
}

proof fn lemma_cost_push(
    orig: Seq<(District, i16)>,
    updated: Seq<(District, i16)>,
    neighbourhood: District,
    cost: i16,
)
    requires
        forall|k: int| 0 <= k < orig.len() ==> (#[trigger] orig[k]).0 != neighbourhood,
        updated == orig.push((neighbourhood, cost)),
    ensures
        forall|d: District|
            #[trigger] spec_district_cost(updated, d) == if d == neighbourhood {
                Some(cost)
            } else {
                spec_district_cost(orig, d)
            },
{
    assert forall|d: District| #[trigger] spec_district_cost(updated, d) == if d == neighbourhood {
        Some(cost)
    } else {
        spec_district_cost(orig, d)
    } by {
        if d == neighbourhood {
            lemma_district_cost_at(updated, d, orig.len() as int);
        } else {
            if spec_has_district_cost(orig, d) {
                lemma_district_cost(orig, d);
                let j = spec_district_cost_idx(orig, d);
                lemma_district_cost_at(updated, d, j);
            } else {
                if spec_has_district_cost(updated, d) {
                    let w = choose|j: int| 0 <= j < updated.len() && (#[trigger] updated[j]).0 == d;
                    assert(w == orig.len());
                    assert(updated[w].0 == neighbourhood);
                }
            }
        }
    }
}


/// Restriction symmetry: placing any restriction other than one-way on
/// the road between two nodes leaves the same restriction on both
/// directed records, so the road reads equally from either end.
#[verifier::spinoff_prover]
#[verifier::rlimit(100)]
pub proof fn lemma_restriction_symmetry(
    old_m: NodeMapView,
    mid: NodeMapView,
    new_m: NodeMapView,
    n1: u8,
    n2: u8,
    rt: RestrictionType,
    modifiable: bool,
)
    requires
        rt != RestrictionType::OneWay,
        spec_has_edge(old_m, n1, n2),
        spec_has_edge(old_m, n2, n1),
        spec_restriction_set(old_m, mid, n1, n2, rt, modifiable),
        spec_restriction_set(mid, new_m, n2, n1, rt, modifiable),
    ensures
        spec_has_edge(new_m, n1, n2),
        spec_has_edge(new_m, n2, n1),
        spec_edge(new_m, n1, n2).restriction == Some(rt),
        spec_edge(new_m, n2, n1).restriction == Some(rt),
{
    let list1_old = old_m.edges[n1 as int];
    let list2_old = old_m.edges[n2 as int];
    lemma_list_edge(list1_old, n2);
    lemma_list_edge(list2_old, n1);
    let j1 = spec_list_edge_idx(list1_old, n2);
    let j2 = spec_list_edge_idx(list2_old, n1);
    assert forall|k: int| 0 <= k < new_m.edges[n1 as int].len() implies
        (#[trigger] new_m.edges[n1 as int][k]).to == old_m.edges[n1 as int][k].to by {
        if n1 == n2 {
            assert(mid.edges[n1 as int][k].to == old_m.edges[n1 as int][k].to);
        } else {
            assert(new_m.edges[n1 as int][k] == mid.edges[n1 as int][k]);
            assert(mid.edges[n1 as int][k].to == old_m.edges[n1 as int][k].to);
        }
    }
    assert forall|k: int| 0 <= k < new_m.edges[n2 as int].len() implies
        (#[trigger] new_m.edges[n2 as int][k]).to == old_m.edges[n2 as int][k].to by {
        assert(mid.edges[n2 as int][k].to == old_m.edges[n2 as int][k].to);
    }
    lemma_list_edge_at(new_m.edges[n1 as int], n2, j1);
    lemma_list_edge_at(new_m.edges[n2 as int], n1, j2);
    if n1 == n2 {
        assert(mid.edges[n1 as int][j1].restriction == Some(rt));
        assert(new_m.edges[n1 as int][j1].restriction == Some(rt));
    } else {
        assert(mid.edges[n1 as int][j1].restriction == Some(rt));
        assert(new_m.edges[n1 as int][j1] == mid.edges[n1 as int][j1]);
        assert(mid.edges[n2 as int][j2] == old_m.edges[n2 as int][j2]);
        assert(new_m.edges[n2 as int][j2].restriction == Some(rt));
    }
}

} // verus!
