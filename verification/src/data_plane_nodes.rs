//! The nodes a sanitized configuration offers for selection, the runtime that
//! switches between them through the data plane, and the traffic display of a
//! running data plane.
use vstd::prelude::*;

use crate::observability::{
    CancellationToken, EventEnvelope, MAX_EVENT_INTEGER, PlatformEvent, TrafficEventThrottler,
    TrafficSample,
};
use crate::persistence::{
    DataPlaneNodeSelectionLedger, DataPlaneNodeSelectionStorage, NodeSelectionState,
    PersistenceUpdateOutcome,
};
use crate::text::{
    bytes_equal, bytes_have_control_char, has_control_char, is_valid_public_identifier,
    utf8_bytes, valid_public_identifier, lemma_utf8_bytes_injective,
};
use crate::vpn::ConfigurationRevision;

verus! {

pub const NODE_RUNTIME_SCHEMA_VERSION: u16 = 1;

pub const MAX_DELAY_TEST_CONCURRENCY: usize = 8;

pub const MAX_DELAY_TEST_TARGETS: usize = 64;

pub const MIN_DELAY_TEST_TIMEOUT_MS: u64 = 100;

pub const MAX_DELAY_TEST_TIMEOUT_MS: u64 = 60000;

pub const MAX_NODE_NAME_BYTES: usize = 128;

pub const MAX_SELECTOR_GROUPS: usize = 8;

#[derive(Debug, Clone, Copy, PartialEq, Eq, Structural)]
pub enum SelectableNodeProtocol {
    Shadowsocks,
    Trojan,
    Hysteria2,
    Vless,
}

/// A node's display name: at most 128 bytes and no control character.
pub open spec fn valid_node_name(name: Seq<u8>) -> bool {
    name.len() <= MAX_NODE_NAME_BYTES && !has_control_char(name)
}

pub fn is_valid_node_name(name: &str) -> (r: bool)
    ensures
        r == valid_node_name(utf8_bytes(name@)),
{
    let bytes = name.as_bytes();
    bytes.len() <= MAX_NODE_NAME_BYTES && !bytes_have_control_char(bytes)
}

/// A node as plain values.
pub struct NodeView {
    pub id: Seq<u8>,
    pub name: Seq<u8>,
    pub protocol: SelectableNodeProtocol,
}

/// A selector group as plain values.
pub struct GroupView {
    pub id: Seq<u8>,
    pub default_node_id: Seq<u8>,
    pub nodes: Seq<NodeView>,
}

/// A selectable node of one selector.
#[derive(Debug, Clone)]
pub struct SelectableNode {
    id: String,
    name: String,
    protocol: SelectableNodeProtocol,
}

impl View for SelectableNode {
    type V = NodeView;

    closed spec fn view(&self) -> NodeView {
        NodeView { id: utf8_bytes(self.id@), name: utf8_bytes(self.name@), protocol: self.protocol }
    }
}

/// Whether a node may be shown to the user as it is.
pub open spec fn node_public_valid(node: NodeView) -> bool {
    valid_public_identifier(node.id) && valid_node_name(node.name)
}

impl SelectableNode {
    pub(crate) fn new(id: String, name: String, protocol: SelectableNodeProtocol) -> (node: Self)
        ensures
            node@ == (NodeView { id: utf8_bytes(id@), name: utf8_bytes(name@), protocol }),
    {
        SelectableNode { id, name, protocol }
    }

    /// A node from values shown to the user; refused unless its id is a valid
    /// public identifier and its name a valid display name.
    pub fn from_public_parts(id: String, name: String, protocol: SelectableNodeProtocol) -> (r:
        Result<Self, NodeRuntimeError>)
        ensures
            r is Ok <==> node_public_valid(
                NodeView { id: utf8_bytes(id@), name: utf8_bytes(name@), protocol },
            ),
            r matches Ok(node) ==> node@ == (NodeView {
                id: utf8_bytes(id@),
                name: utf8_bytes(name@),
                protocol,
            }),
            r matches Err(e) ==> e == NodeRuntimeError::InvalidRequest,
    {
        if !is_valid_public_identifier(id.as_str().as_bytes()) || !is_valid_node_name(
            name.as_str(),
        ) {
            return Err(NodeRuntimeError::InvalidRequest);
        }
        Ok(SelectableNode { id, name, protocol })
    }

    pub fn id(&self) -> (v: &str)
        ensures
            utf8_bytes(v@) == self@.id,
    {
        self.id.as_str()
    }

    /// The name to show: the node's name, or its id where it has none.
    pub fn name(&self) -> (v: &str)
        ensures
            utf8_bytes(v@) == if self@.name.len() == 0 {
                self@.id
            } else {
                self@.name
            },
    {
        if self.id.as_str().as_bytes().len() == 0 || self.name.as_str().as_bytes().len() != 0 {
            if self.name.as_str().as_bytes().len() == 0 {
                return self.id.as_str();
            }
            return self.name.as_str();
        }
        self.id.as_str()
    }

    pub fn protocol(&self) -> (v: SelectableNodeProtocol)
        ensures
            v == self@.protocol,
    {
        self.protocol
    }
}

pub open spec fn node_ids(nodes: Seq<NodeView>) -> Seq<Seq<u8>> {
    nodes.map_values(|node: NodeView| node.id)
}

pub open spec fn ids_distinct(ids: Seq<Seq<u8>>) -> bool {
    forall|i: int, j: int| 0 <= i < j < ids.len() ==> #[trigger] ids[i] != #[trigger] ids[j]
}

/// Whether a group may be shown to the user as it is: valid ids, one to 64
/// nodes with distinct ids, and a default that is one of them.
pub open spec fn group_public_valid(group: GroupView) -> bool {
    &&& valid_public_identifier(group.id)
    &&& valid_public_identifier(group.default_node_id)
    &&& 1 <= group.nodes.len() <= MAX_DELAY_TEST_TARGETS
    &&& ids_distinct(node_ids(group.nodes))
    &&& node_ids(group.nodes).contains(group.default_node_id)
}

pub open spec fn nodes_view(nodes: Seq<SelectableNode>) -> Seq<NodeView> {
    nodes.map_values(|node: SelectableNode| node@)
}

/// The selectable nodes of one selector.
#[derive(Debug, Clone)]
pub struct SelectorGroup {
    id: String,
    default_node_id: String,
    nodes: Vec<SelectableNode>,
}

impl View for SelectorGroup {
    type V = GroupView;

    closed spec fn view(&self) -> GroupView {
        GroupView {
            id: utf8_bytes(self.id@),
            default_node_id: utf8_bytes(self.default_node_id@),
            nodes: nodes_view(self.nodes@),
        }
    }
}

/// Whether `node_id` is among the ids of `nodes`, as a test over indices.
fn contains_node_id(nodes: &Vec<SelectableNode>, node_id: &[u8]) -> (r: bool)
    ensures
        r == node_ids(nodes_view(nodes@)).contains(node_id@),
{
    let ghost ids = node_ids(nodes_view(nodes@));
    let mut i: usize = 0;
    while i < nodes.len()
        invariant
            i <= nodes@.len(),
            ids == node_ids(nodes_view(nodes@)),
            ids.len() == nodes@.len(),
            forall|k: int| 0 <= k < i ==> ids[k] != node_id@,
        decreases nodes@.len() - i,
    {
        proof {
            assert(ids[i as int] == nodes@[i as int]@.id);
        }
        if bytes_equal(nodes[i].id.as_str().as_bytes(), node_id) {
            proof {
                assert(ids.contains(ids[i as int]));
            }
            return true;
        }
        i += 1;
    }
    false
}

/// Whether the ids of `nodes` are distinct.
fn node_ids_distinct(nodes: &Vec<SelectableNode>) -> (r: bool)
    ensures
        r == ids_distinct(node_ids(nodes_view(nodes@))),
{
    let ghost ids = node_ids(nodes_view(nodes@));
    let mut j: usize = 0;
    while j < nodes.len()
        invariant
            j <= nodes@.len(),
            ids == node_ids(nodes_view(nodes@)),
            ids.len() == nodes@.len(),
            forall|a: int, b: int| 0 <= a < b < j ==> #[trigger] ids[a] != #[trigger] ids[b],
        decreases nodes@.len() - j,
    {
        let mut i: usize = 0;
        while i < j
            invariant
                i <= j < nodes@.len(),
                ids == node_ids(nodes_view(nodes@)),
                ids.len() == nodes@.len(),
                forall|a: int| 0 <= a < i ==> #[trigger] ids[a] != ids[j as int],
            decreases j - i,
        {
            proof {
                assert(ids[i as int] == nodes@[i as int]@.id);
                assert(ids[j as int] == nodes@[j as int]@.id);
            }
            if bytes_equal(nodes[i].id.as_str().as_bytes(), nodes[j].id.as_str().as_bytes()) {
                return false;
            }
            i += 1;
        }
        j += 1;
    }
    true
}

impl SelectorGroup {
    pub(crate) fn new(id: String, default_node_id: String, nodes: Vec<SelectableNode>) -> (group:
        Self)
        ensures
            group@ == (GroupView {
                id: utf8_bytes(id@),
                default_node_id: utf8_bytes(default_node_id@),
                nodes: nodes_view(nodes@),
            }),
    {
        SelectorGroup { id, default_node_id, nodes }
    }

    /// A group from values shown to the user; refused unless it is
    /// [`group_public_valid`].
    pub fn from_public_parts(id: String, default_node_id: String, nodes: Vec<SelectableNode>) -> (r:
        Result<Self, NodeRuntimeError>)
        ensures
            r is Ok <==> group_public_valid(
                GroupView {
                    id: utf8_bytes(id@),
                    default_node_id: utf8_bytes(default_node_id@),
                    nodes: nodes_view(nodes@),
                },
            ),
            r matches Ok(group) ==> group@ == (GroupView {
                id: utf8_bytes(id@),
                default_node_id: utf8_bytes(default_node_id@),
                nodes: nodes_view(nodes@),
            }),
            r matches Err(e) ==> e == NodeRuntimeError::InvalidRequest,
    {
        if !is_valid_public_identifier(id.as_str().as_bytes()) || !is_valid_public_identifier(
            default_node_id.as_str().as_bytes(),
        ) || nodes.len() == 0 || nodes.len() > MAX_DELAY_TEST_TARGETS {
            return Err(NodeRuntimeError::InvalidRequest);
        }
        if !node_ids_distinct(&nodes) || !contains_node_id(
            &nodes,
            default_node_id.as_str().as_bytes(),
        ) {
            return Err(NodeRuntimeError::InvalidRequest);
        }
        Ok(SelectorGroup { id, default_node_id, nodes })
    }

    pub fn id(&self) -> (v: &str)
        ensures
            utf8_bytes(v@) == self@.id,
    {
        self.id.as_str()
    }

    pub fn default_node_id(&self) -> (v: &str)
        ensures
            utf8_bytes(v@) == self@.default_node_id,
    {
        self.default_node_id.as_str()
    }

    pub fn nodes(&self) -> (v: &[SelectableNode])
        ensures
            nodes_view(v@) == self@.nodes,
    {
        self.nodes.as_slice()
    }

    pub fn contains_node(&self, node_id: &str) -> (r: bool)
        ensures
            r == node_ids(self@.nodes).contains(utf8_bytes(node_id@)),
    {
        contains_node_id(&self.nodes, node_id.as_bytes())
    }
}

/// A selector catalog as plain values.
pub struct CatalogView {
    pub schema_version: u16,
    pub groups: Seq<GroupView>,
}

pub open spec fn group_ids(groups: Seq<GroupView>) -> Seq<Seq<u8>> {
    groups.map_values(|group: GroupView| group.id)
}

pub open spec fn groups_view(groups: Seq<SelectorGroup>) -> Seq<GroupView> {
    groups.map_values(|group: SelectorGroup| group@)
}

/// Whether a catalog of groups may be offered: one to eight groups with
/// distinct ids.
pub open spec fn groups_public_valid(groups: Seq<GroupView>) -> bool {
    1 <= groups.len() <= MAX_SELECTOR_GROUPS && ids_distinct(group_ids(groups))
}

/// Whether a whole catalog holds only what may be shown to the user.
pub open spec fn catalog_public_valid(catalog: CatalogView) -> bool {
    &&& catalog.schema_version == NODE_RUNTIME_SCHEMA_VERSION
    &&& groups_public_valid(catalog.groups)
    &&& forall|g: int|
        0 <= g < catalog.groups.len() ==> group_public_valid(#[trigger] catalog.groups[g])
    &&& forall|g: int, n: int|
        0 <= g < catalog.groups.len() && 0 <= n < catalog.groups[g].nodes.len()
            ==> node_public_valid(#[trigger] catalog.groups[g].nodes[n])
}

/// The first group of `groups` whose id is `id`.
pub open spec fn first_group_index(groups: Seq<GroupView>, id: Seq<u8>) -> Option<int> {
    if exists|i: int| 0 <= i < groups.len() && #[trigger] groups[i].id == id {
        Some(
            choose|i: int|
                0 <= i < groups.len() && #[trigger] groups[i].id == id && forall|k: int|
                    0 <= k < i ==> #[trigger] groups[k].id != id,
        )
    } else {
        None
    }
}

/// The selector groups of one configuration.
#[derive(Debug, Clone)]
pub struct SelectorCatalog {
    schema_version: u16,
    groups: Vec<SelectorGroup>,
}

impl View for SelectorCatalog {
    type V = CatalogView;

    closed spec fn view(&self) -> CatalogView {
        CatalogView { schema_version: self.schema_version, groups: groups_view(self.groups@) }
    }
}

/// Whether the ids of `groups` are distinct.
fn group_ids_distinct(groups: &Vec<SelectorGroup>) -> (r: bool)
    ensures
        r == ids_distinct(group_ids(groups_view(groups@))),
{
    let ghost ids = group_ids(groups_view(groups@));
    let mut j: usize = 0;
    while j < groups.len()
        invariant
            j <= groups@.len(),
            ids == group_ids(groups_view(groups@)),
            ids.len() == groups@.len(),
            forall|a: int, b: int| 0 <= a < b < j ==> #[trigger] ids[a] != #[trigger] ids[b],
        decreases groups@.len() - j,
    {
        let mut i: usize = 0;
        while i < j
            invariant
                i <= j < groups@.len(),
                ids == group_ids(groups_view(groups@)),
                ids.len() == groups@.len(),
                forall|a: int| 0 <= a < i ==> #[trigger] ids[a] != ids[j as int],
            decreases j - i,
        {
            proof {
                assert(ids[i as int] == groups@[i as int]@.id);
                assert(ids[j as int] == groups@[j as int]@.id);
            }
            if bytes_equal(groups[i].id.as_str().as_bytes(), groups[j].id.as_str().as_bytes()) {
                return false;
            }
            i += 1;
        }
        j += 1;
    }
    true
}

impl SelectorCatalog {
    pub(crate) fn new(groups: Vec<SelectorGroup>) -> (catalog: Self)
        ensures
            catalog@ == (CatalogView {
                schema_version: NODE_RUNTIME_SCHEMA_VERSION,
                groups: groups_view(groups@),
            }),
    {
        SelectorCatalog { schema_version: NODE_RUNTIME_SCHEMA_VERSION, groups }
    }

    /// A catalog of groups shown to the user; refused unless there are one to
    /// eight groups with distinct ids.
    pub fn from_public_groups(groups: Vec<SelectorGroup>) -> (r: Result<Self, NodeRuntimeError>)
        ensures
            r is Ok <==> groups_public_valid(groups_view(groups@)),
            r matches Ok(catalog) ==> catalog@ == (CatalogView {
                schema_version: NODE_RUNTIME_SCHEMA_VERSION,
                groups: groups_view(groups@),
            }),
            r matches Err(e) ==> e == NodeRuntimeError::InvalidRequest,
    {
        if groups.len() == 0 || groups.len() > MAX_SELECTOR_GROUPS {
            return Err(NodeRuntimeError::InvalidRequest);
        }
        if !group_ids_distinct(&groups) {
            return Err(NodeRuntimeError::InvalidRequest);
        }
        Ok(SelectorCatalog { schema_version: NODE_RUNTIME_SCHEMA_VERSION, groups })
    }

    /// Checks that everything in the catalog may be shown to the user.
    pub fn validate_public(&self) -> (r: Result<(), NodeRuntimeError>)
        ensures
            r is Ok <==> catalog_public_valid(self@),
            r matches Err(e) ==> e == NodeRuntimeError::InvalidRequest,
    {
        if self.schema_version != NODE_RUNTIME_SCHEMA_VERSION {
            return Err(NodeRuntimeError::InvalidRequest);
        }
        let ghost groups = self@.groups;
        let mut g: usize = 0;
        while g < self.groups.len()
            invariant
                g <= self.groups@.len(),
                groups == self@.groups,
                groups.len() == self.groups@.len(),
                forall|k: int| 0 <= k < g ==> group_public_valid(#[trigger] groups[k]),
                forall|k: int, n: int|
                    0 <= k < g && 0 <= n < groups[k].nodes.len() ==> node_public_valid(
                        #[trigger] groups[k].nodes[n],
                    ),
            decreases self.groups@.len() - g,
        {
            let group = &self.groups[g];
            proof {
                assert(groups[g as int] == group@);
            }
            let mut n: usize = 0;
            while n < group.nodes.len()
                invariant
                    n <= group.nodes@.len(),
                    group@.nodes == nodes_view(group.nodes@),
                    groups == self@.groups,
                    groups.len() == self.groups@.len(),
                    g < groups.len(),
                    groups[g as int] == group@,
                    forall|k: int| 0 <= k < g ==> group_public_valid(#[trigger] groups[k]),
                    forall|k: int, m: int|
                        0 <= k < g && 0 <= m < groups[k].nodes.len() ==> node_public_valid(
                            #[trigger] groups[k].nodes[m],
                        ),
                    forall|m: int| 0 <= m < n ==> node_public_valid(#[trigger] group@.nodes[m]),
                decreases group.nodes@.len() - n,
            {
                let node = &group.nodes[n];
                proof {
                    assert(group@.nodes[n as int] == node@);
                }
                if !is_valid_public_identifier(node.id.as_str().as_bytes()) || !is_valid_node_name(
                    node.name.as_str(),
                ) {
                    proof {
                        assert(!node_public_valid(groups[g as int].nodes[n as int]));
                    }
                    return Err(NodeRuntimeError::InvalidRequest);
                }
                n += 1;
            }
            proof {
                assert forall|k: int, m: int|
                    0 <= k < g + 1 && 0 <= m < groups[k].nodes.len() implies node_public_valid(
                    #[trigger] groups[k].nodes[m],
                ) by {
                    if k == g {
                        assert(groups[k].nodes[m] == group@.nodes[m]);
                    }
                }
            }
            if !is_valid_public_identifier(group.id.as_str().as_bytes())
                || !is_valid_public_identifier(group.default_node_id.as_str().as_bytes())
                || group.nodes.len() == 0 || group.nodes.len() > MAX_DELAY_TEST_TARGETS
                || !node_ids_distinct(&group.nodes) || !contains_node_id(
                &group.nodes,
                group.default_node_id.as_str().as_bytes(),
            ) {
                proof {
                    assert(!group_public_valid(groups[g as int]));
                }
                return Err(NodeRuntimeError::InvalidRequest);
            }
            g += 1;
        }
        if self.groups.len() == 0 || self.groups.len() > MAX_SELECTOR_GROUPS
            || !group_ids_distinct(&self.groups) {
            return Err(NodeRuntimeError::InvalidRequest);
        }
        Ok(())
    }

    pub fn schema_version(&self) -> (v: u16)
        ensures
            v == self@.schema_version,
    {
        self.schema_version
    }

    pub fn groups(&self) -> (v: &[SelectorGroup])
        ensures
            groups_view(v@) == self@.groups,
    {
        self.groups.as_slice()
    }

    /// The first group whose id is `selector_id`.
    pub fn group(&self, selector_id: &str) -> (r: Option<&SelectorGroup>)
        ensures
            match first_group_index(self@.groups, utf8_bytes(selector_id@)) {
                Some(i) => r matches Some(group) && group@ == self@.groups[i],
                None => r is None,
            },
            r matches Some(group) ==> self@.groups.contains(group@),
    {
        let ghost groups = self@.groups;
        let ghost key = utf8_bytes(selector_id@);
        let mut i: usize = 0;
        while i < self.groups.len()
            invariant
                i <= self.groups@.len(),
                groups == self@.groups,
                groups.len() == self.groups@.len(),
                key == utf8_bytes(selector_id@),
                forall|k: int| 0 <= k < i ==> #[trigger] groups[k].id != key,
            decreases self.groups@.len() - i,
        {
            proof {
                assert(groups[i as int] == self.groups@[i as int]@);
            }
            if bytes_equal(self.groups[i].id.as_str().as_bytes(), selector_id.as_bytes()) {
                proof {
                    assert(groups[i as int].id == key);
                    let c = choose|c: int|
                        0 <= c < groups.len() && #[trigger] groups[c].id == key && forall|k: int|
                            0 <= k < c ==> #[trigger] groups[k].id != key;
                    assert(0 <= i < groups.len() && groups[i as int].id == key && forall|k: int|
                        0 <= k < i ==> #[trigger] groups[k].id != key);
                    if c < i {
                        assert(groups[c].id != key);
                    } else if c > i {
                        assert(groups[i as int].id != key);
                    }
                    assert(groups.contains(self.groups@[i as int]@));
                }
                return Some(&self.groups[i]);
            }
            i += 1;
        }
        None
    }
}

#[derive(Debug, Clone, Copy, PartialEq, Eq, Structural)]
pub enum NodeBackendError {
    Unavailable,
    Rejected,
}

#[derive(Debug, Clone, Copy, PartialEq, Eq, Structural)]
pub enum DelayProbeError {
    TimedOut,
    Cancelled,
    Unavailable,
}

#[derive(Debug, Clone, Copy, PartialEq, Eq, Structural)]
pub enum NodeRuntimeError {
    InvalidRequest,
    UnknownSelector,
    UnknownNode,
    OperationInProgress,
    BackendUnavailable,
    SelectionRejected,
    InvalidBackendState,
    SelectionReadbackMismatch,
    Persistence,
    RollbackFailed,
    TrafficInactive,
    TrafficCounterRegression,
    TrafficClockRegression,
    TrafficCounterOverflow,
}

impl NodeRuntimeError {
    pub open spec fn spec_name(self) -> &'static str {
        match self {
            NodeRuntimeError::InvalidRequest => "node-runtime-invalid-request",
            NodeRuntimeError::UnknownSelector => "node-runtime-unknown-selector",
            NodeRuntimeError::UnknownNode => "node-runtime-unknown-node",
            NodeRuntimeError::OperationInProgress => "node-runtime-operation-in-progress",
            NodeRuntimeError::BackendUnavailable => "node-runtime-backend-unavailable",
            NodeRuntimeError::SelectionRejected => "node-runtime-selection-rejected",
            NodeRuntimeError::InvalidBackendState => "node-runtime-invalid-backend-state",
            NodeRuntimeError::SelectionReadbackMismatch => "node-runtime-selection-readback-mismatch",
            NodeRuntimeError::Persistence => "node-runtime-persistence-failed",
            NodeRuntimeError::RollbackFailed => "node-runtime-rollback-failed",
            NodeRuntimeError::TrafficInactive => "node-runtime-traffic-inactive",
            NodeRuntimeError::TrafficCounterRegression => "node-runtime-traffic-counter-regression",
            NodeRuntimeError::TrafficClockRegression => "node-runtime-traffic-clock-regression",
            NodeRuntimeError::TrafficCounterOverflow => "node-runtime-traffic-counter-overflow",
        }
    }

    pub fn as_str(self) -> (name: &'static str)
        ensures
            name@ == self.spec_name()@,
    {
        match self {
            NodeRuntimeError::InvalidRequest => "node-runtime-invalid-request",
            NodeRuntimeError::UnknownSelector => "node-runtime-unknown-selector",
            NodeRuntimeError::UnknownNode => "node-runtime-unknown-node",
            NodeRuntimeError::OperationInProgress => "node-runtime-operation-in-progress",
            NodeRuntimeError::BackendUnavailable => "node-runtime-backend-unavailable",
            NodeRuntimeError::SelectionRejected => "node-runtime-selection-rejected",
            NodeRuntimeError::InvalidBackendState => "node-runtime-invalid-backend-state",
            NodeRuntimeError::SelectionReadbackMismatch => "node-runtime-selection-readback-mismatch",
            NodeRuntimeError::Persistence => "node-runtime-persistence-failed",
            NodeRuntimeError::RollbackFailed => "node-runtime-rollback-failed",
            NodeRuntimeError::TrafficInactive => "node-runtime-traffic-inactive",
            NodeRuntimeError::TrafficCounterRegression => "node-runtime-traffic-counter-regression",
            NodeRuntimeError::TrafficClockRegression => "node-runtime-traffic-clock-regression",
            NodeRuntimeError::TrafficCounterOverflow => "node-runtime-traffic-counter-overflow",
        }
    }
}

/// The runtime error a backend failure becomes.
pub open spec fn spec_backend_error(error: NodeBackendError) -> NodeRuntimeError {
    match error {
        NodeBackendError::Unavailable => NodeRuntimeError::BackendUnavailable,
        NodeBackendError::Rejected => NodeRuntimeError::SelectionRejected,
    }
}

pub fn map_backend_error(error: NodeBackendError) -> (r: NodeRuntimeError)
    ensures
        r == spec_backend_error(error),
{
    match error {
        NodeBackendError::Unavailable => NodeRuntimeError::BackendUnavailable,
        NodeBackendError::Rejected => NodeRuntimeError::SelectionRejected,
    }
}

#[derive(Debug, Clone, Copy, PartialEq, Eq, Structural)]
pub enum NodeSelectionSource {
    Confirmed,
    Restored,
    DefaultFallback,
}

/// A selection as plain values.
pub struct SelectionView {
    pub selector_id: Seq<u8>,
    pub node_id: Seq<u8>,
    pub source: NodeSelectionSource,
}

/// A node selection that the data plane confirmed.
#[derive(Debug, Clone)]
pub struct ConfirmedNodeSelection {
    selector_id: String,
    node_id: String,
    source: NodeSelectionSource,
}

impl View for ConfirmedNodeSelection {
    type V = SelectionView;

    closed spec fn view(&self) -> SelectionView {
        SelectionView {
            selector_id: utf8_bytes(self.selector_id@),
            node_id: utf8_bytes(self.node_id@),
            source: self.source,
        }
    }
}

impl ConfirmedNodeSelection {
    fn new(selector_id: String, node_id: String, source: NodeSelectionSource) -> (selection: Self)
        ensures
            selection@ == (SelectionView {
                selector_id: utf8_bytes(selector_id@),
                node_id: utf8_bytes(node_id@),
                source,
            }),
    {
        ConfirmedNodeSelection { selector_id, node_id, source }
    }

    pub fn selector_id(&self) -> (v: &str)
        ensures
            utf8_bytes(v@) == self@.selector_id,
    {
        self.selector_id.as_str()
    }

    pub fn node_id(&self) -> (v: &str)
        ensures
            utf8_bytes(v@) == self@.node_id,
    {
        self.node_id.as_str()
    }

    pub fn source(&self) -> (v: NodeSelectionSource)
        ensures
            v == self@.source,
    {
        self.source
    }
}

pub open spec fn selections_view(selections: Seq<ConfirmedNodeSelection>) -> Seq<SelectionView> {
    selections.map_values(|selection: ConfirmedNodeSelection| selection@)
}

/// The selections restored for one configuration revision.
#[derive(Debug, Clone)]
pub struct SelectionRestoreOutcome {
    schema_version: u16,
    revision: u64,
    selections: Vec<ConfirmedNodeSelection>,
}

impl SelectionRestoreOutcome {
    pub closed spec fn spec_revision(&self) -> u64 {
        self.revision
    }

    pub closed spec fn spec_selections(&self) -> Seq<SelectionView> {
        selections_view(self.selections@)
    }

    pub fn revision(&self) -> (v: u64)
        ensures
            v == self.spec_revision(),
    {
        self.revision
    }

    pub fn selections(&self) -> (v: &[ConfirmedNodeSelection])
        ensures
            selections_view(v@) == self.spec_selections(),
    {
        self.selections.as_slice()
    }
}

/// What restoring chooses for one group: the remembered node when it is still
/// one of the group's nodes, the group's default otherwise.
/// Whether some group of `groups` has the id `id`.
pub open spec fn catalog_has(groups: Seq<GroupView>, id: Seq<u8>) -> bool {
    exists|i: int| 0 <= i < groups.len() && #[trigger] groups[i].id == id
}

/// The selection restoring plans for each group, in catalog order.
pub open spec fn restore_plan(
    groups: Seq<GroupView>,
    persisted: crate::persistence::NodeSelectionState,
) -> Seq<(Seq<u8>, Seq<u8>)> {
    Seq::new(groups.len(), |i: int| (groups[i].id, restore_choice(groups[i], persisted).0))
}

/// Whether planned selections can be recorded for `revision`.
pub open spec fn plan_recordable(revision: u64, plan: Seq<(Seq<u8>, Seq<u8>)>) -> bool {
    &&& crate::persistence::selectors_distinct(plan)
    &&& (crate::persistence::NodeSelectionState { revision: Some(revision), entries: plan }).valid_unordered()
}

pub open spec fn restore_choice(
    group: GroupView,
    persisted: crate::persistence::NodeSelectionState,
) -> (Seq<u8>, NodeSelectionSource) {
    match persisted.node_for(group.id) {
        Some(node) => if node_ids(group.nodes).contains(node) {
            (node, NodeSelectionSource::Restored)
        } else {
            (group.default_node_id, NodeSelectionSource::DefaultFallback)
        },
        None => (group.default_node_id, NodeSelectionSource::DefaultFallback),
    }
}

/// What a restore wants for each group of `catalog`, in catalog order, given the
/// remembered selections: the pairs to apply, and the outcome to report.
pub fn plan_restore(catalog: &SelectorCatalog, persisted: &DataPlaneNodeSelectionLedger) -> (r: (
    Vec<(String, String)>,
    Vec<ConfirmedNodeSelection>,
))
    ensures
        r.0@.len() == catalog@.groups.len(),
        r.1@.len() == catalog@.groups.len(),
        forall|i: int|
            #![trigger r.0@[i]]
            #![trigger r.1@[i]]
            0 <= i < catalog@.groups.len() ==> {
                let choice = restore_choice(catalog@.groups[i], persisted@);
                &&& utf8_bytes(r.0@[i].0@) == catalog@.groups[i].id
                &&& utf8_bytes(r.0@[i].1@) == choice.0
                &&& r.1@[i]@ == (SelectionView {
                    selector_id: catalog@.groups[i].id,
                    node_id: choice.0,
                    source: choice.1,
                })
            },
{
    let ghost groups = catalog@.groups;
    let mut desired: Vec<(String, String)> = Vec::new();
    let mut outcomes: Vec<ConfirmedNodeSelection> = Vec::new();
    let mut i: usize = 0;
    while i < catalog.groups.len()
        invariant
            i <= catalog.groups@.len(),
            groups == catalog@.groups,
            groups.len() == catalog.groups@.len(),
            desired@.len() == i,
            outcomes@.len() == i,
            forall|k: int|
                #![trigger desired@[k]]
                #![trigger outcomes@[k]]
                0 <= k < i ==> {
                    let choice = restore_choice(groups[k], persisted@);
                    &&& utf8_bytes(desired@[k].0@) == groups[k].id
                    &&& utf8_bytes(desired@[k].1@) == choice.0
                    &&& outcomes@[k]@ == (SelectionView {
                        selector_id: groups[k].id,
                        node_id: choice.0,
                        source: choice.1,
                    })
                },
        decreases catalog.groups@.len() - i,
    {
        let group = &catalog.groups[i];
        proof {
            assert(groups[i as int] == group@);
        }
        let remembered = persisted.selected_node(group.id.as_str());
        let (node_id, source) = match remembered {
            Some(node) => {
                if contains_node_id(&group.nodes, node.as_bytes()) {
                    (node.to_owned(), NodeSelectionSource::Restored)
                } else {
                    (group.default_node_id.clone(), NodeSelectionSource::DefaultFallback)
                }
            },
            None => (group.default_node_id.clone(), NodeSelectionSource::DefaultFallback),
        };
        desired.push((group.id.clone(), node_id.clone()));
        outcomes.push(ConfirmedNodeSelection::new(group.id.clone(), node_id, source));
        i += 1;
    }
    (desired, outcomes)
}

/// Runs a selection operation's backend calls. Implemented by the platform,
/// which says, through `selects` and `reads`, which answers its calls may
/// give; this crate relies on nothing else of an implementation.
pub trait DataPlaneNodeBackend: Send + Sync {
    /// `answer` is one that selecting `node_id` in `selector_id` may give.
    spec fn selects(
        &self,
        revision: u64,
        selector_id: &str,
        node_id: &str,
        answer: Result<(), NodeBackendError>,
    ) -> bool;

    /// `answer` is one that reading the node selected in `selector_id` may give.
    spec fn reads(&self, revision: u64, selector_id: &str, answer: Result<String, NodeBackendError>) -> bool;

    fn select_node(&self, revision: ConfigurationRevision, selector_id: &str, node_id: &str) -> (r:
        Result<(), NodeBackendError>)
        ensures
            self.selects(revision.value(), selector_id, node_id, r),
    ;

    fn read_selected_node(&self, revision: ConfigurationRevision, selector_id: &str) -> (r: Result<
        String,
        NodeBackendError,
    >)
        ensures
            self.reads(revision.value(), selector_id, r),
    ;

    /// Must stop the probe by `timeout_ms` or when `cancellation` is set.
    fn probe_node_delay(
        &self,
        revision: ConfigurationRevision,
        selector_id: &str,
        node_id: &str,
        timeout_ms: u64,
        cancellation: &CancellationToken,
    ) -> Result<u32, DelayProbeError>;

    fn traffic_counters(&self, revision: ConfigurationRevision) -> Result<
        TrafficCounters,
        NodeBackendError,
    >;
}

/// The outcome of checking a selector and node against a catalog: the index of
/// the selector's group, or the error.
#[verifier::opaque]
pub open spec fn spec_target_check(catalog: CatalogView, selector: Seq<u8>, node: Seq<u8>) -> Result<
    int,
    NodeRuntimeError,
> {
    match first_group_index(catalog.groups, selector) {
        None => Err(NodeRuntimeError::UnknownSelector),
        Some(i) => if node_ids(catalog.groups[i].nodes).contains(node) {
            Ok(i)
        } else {
            Err(NodeRuntimeError::UnknownNode)
        },
    }
}

/// Checking a target fails only on an unknown selector or node.
pub proof fn lemma_target_check_errors(catalog: CatalogView, selector: Seq<u8>, node: Seq<u8>)
    ensures
        spec_target_check(catalog, selector, node) is Err ==> spec_target_check(
            catalog,
            selector,
            node,
        ) == Err::<int, NodeRuntimeError>(NodeRuntimeError::UnknownSelector) || spec_target_check(
            catalog,
            selector,
            node,
        ) == Err::<int, NodeRuntimeError>(NodeRuntimeError::UnknownNode),
{
    reveal(spec_target_check);
}

/// A successful answer without a value is `Ok(())`.
pub proof fn lemma_unit_backend_answer(answer: Result<(), NodeBackendError>)
    ensures
        answer is Ok ==> answer == Ok::<(), NodeBackendError>(()),
{
    match answer {
        Ok(u) => {
            let v: () = ();
            assert(u == v);
        },
        Err(_) => {},
    }
}

/// The errors a selection operation can end in once the request was accepted.
pub open spec fn is_operation_error(e: NodeRuntimeError) -> bool {
    e == NodeRuntimeError::OperationInProgress || e == NodeRuntimeError::BackendUnavailable || e
        == NodeRuntimeError::SelectionRejected || e == NodeRuntimeError::InvalidBackendState || e
        == NodeRuntimeError::SelectionReadbackMismatch || e == NodeRuntimeError::Persistence || e
        == NodeRuntimeError::RollbackFailed || e == NodeRuntimeError::UnknownSelector
}

/// The error a failed operation reports after its rollback: the original error
/// when the rollback succeeded, `RollbackFailed` otherwise.
pub open spec fn spec_after_rollback(original: NodeRuntimeError, restored: bool) -> NodeRuntimeError {
    if restored {
        original
    } else {
        NodeRuntimeError::RollbackFailed
    }
}

pub fn after_rollback(original: NodeRuntimeError, restored: bool) -> (r: NodeRuntimeError)
    ensures
        r == spec_after_rollback(original, restored),
{
    if restored {
        original
    } else {
        NodeRuntimeError::RollbackFailed
    }
}

pub(crate) fn try_begin_operation(flag: &std::sync::atomic::AtomicBool) -> bool {
    flag.compare_exchange(
        false,
        true,
        std::sync::atomic::Ordering::AcqRel,
        std::sync::atomic::Ordering::Acquire,
    ).is_ok()
}

pub(crate) fn end_operation(flag: &std::sync::atomic::AtomicBool) {
    flag.store(false, std::sync::atomic::Ordering::Release);
}

/// Switches the nodes of one running configuration, one operation at a time,
/// and remembers what was confirmed.
pub struct DataPlaneNodeRuntime<B, S> {
    backend: B,
    selection_storage: S,
    revision: ConfigurationRevision,
    catalog: SelectorCatalog,
    selection_operation: std::sync::atomic::AtomicBool,
}

impl<B: DataPlaneNodeBackend, S: DataPlaneNodeSelectionStorage> DataPlaneNodeRuntime<B, S> {
    pub closed spec fn spec_revision(&self) -> ConfigurationRevision {
        self.revision
    }

    pub closed spec fn spec_catalog(&self) -> CatalogView {
        self.catalog@
    }

    /// A call of the backend answered `Err(error)`.
    pub open spec fn backend_answered_error(&self, error: NodeBackendError) -> bool {
        ||| exists|s: &str, n: &str|
            #[trigger] self.spec_backend().selects(self.spec_revision().value(), s, n, Err(error))
        ||| exists|s: &str| #[trigger] self.spec_backend().reads(self.spec_revision().value(), s, Err(error))
    }

    /// A call of the backend answered an error that maps to `e`.
    pub open spec fn backend_refused(&self, e: NodeRuntimeError) -> bool {
        exists|error: NodeBackendError|
            #[trigger] self.backend_answered_error(error) && spec_backend_error(error) == e
    }

    /// A node was selected in a selector and read back as another one.
    pub open spec fn read_back_differs(&self) -> bool {
        exists|s: &str, n: &str, read: String|
            #[trigger] self.spec_backend().selects(self.spec_revision().value(), s, n, Ok(()))
                && #[trigger] self.spec_backend().reads(self.spec_revision().value(), s, Ok(read))
                && read@ != n@
    }

    /// The backend reported as selected a node that a group of the catalog
    /// does not offer.
    pub open spec fn read_unoffered(&self) -> bool {
        exists|s: &str, read: String, group: GroupView|
            #[trigger] self.spec_backend().reads(self.spec_revision().value(), s, Ok(read))
                && #[trigger] self.spec_catalog().groups.contains(group) && !node_ids(
                group.nodes,
            ).contains(utf8_bytes(read@))
    }

    /// How a failed backend step is explained: a refused call, a node the
    /// catalog does not offer, a selection that did not read back, and a
    /// failed rollback after one of these.
    #[verifier::opaque]
    pub open spec fn selection_explained(&self, e: NodeRuntimeError) -> bool {
        match e {
            NodeRuntimeError::BackendUnavailable | NodeRuntimeError::SelectionRejected => self.backend_refused(e),
            NodeRuntimeError::InvalidBackendState => self.read_unoffered(),
            NodeRuntimeError::SelectionReadbackMismatch => self.read_back_differs(),
            NodeRuntimeError::RollbackFailed => (exists|error: NodeBackendError|
                #[trigger] self.backend_answered_error(error)) || self.read_back_differs(),
            _ => true,
        }
    }

    /// Every selector of `pairs` is a group of the catalog.
    pub open spec fn keys_in_catalog(&self, pairs: Seq<(String, String)>) -> bool {
        forall|k: int| 0 <= k < pairs.len() ==> catalog_has(self.spec_catalog().groups, utf8_bytes(#[trigger] pairs[k].0@))
    }

    /// The remembered selections could not be used: reading them failed,
    /// replacing them failed, or the selections planned from what was read
    /// cannot be recorded.
    pub open spec fn storage_refused(&self) -> bool {
        ||| exists|e: crate::persistence::PersistenceError| #[trigger] self.spec_storage().reads_selections(Err(e))
        ||| exists|l: crate::persistence::NodeSelectionState, e: crate::persistence::PersistenceError|
            #[trigger] self.spec_storage().replaces(l, Err(e))
        ||| exists|p: crate::persistence::NodeSelectionState|
            #[trigger] self.spec_storage().reads_selections(Ok(p)) && !plan_recordable(
                self.spec_revision().value(),
                restore_plan(self.spec_catalog().groups, p),
            )
    }

    /// How a failed restore is explained: a storage failure, or a failed
    /// backend step as for a selection.
    pub open spec fn restore_explained(&self, e: NodeRuntimeError) -> bool {
        if e == NodeRuntimeError::Persistence {
            self.storage_refused()
        } else if e == NodeRuntimeError::UnknownSelector {
            false
        } else {
            self.selection_explained(e)
        }
    }

    /// The errors that do not come from a backend answer need no explanation.
    proof fn lemma_explained_without_backend(&self, e: NodeRuntimeError)
        requires
            e == NodeRuntimeError::Persistence || e == NodeRuntimeError::OperationInProgress || e
                == NodeRuntimeError::UnknownSelector || e == NodeRuntimeError::UnknownNode,
        ensures
            self.selection_explained(e),
    {
        reveal(DataPlaneNodeRuntime::selection_explained);
    }

    /// Where the runtime remembers its selections.
    pub closed spec fn spec_storage(&self) -> S {
        self.selection_storage
    }

    /// The backend the runtime drives.
    pub closed spec fn spec_backend(&self) -> B {
        self.backend
    }

    pub fn from_catalog(
        backend: B,
        selection_storage: S,
        revision: ConfigurationRevision,
        catalog: SelectorCatalog,
    ) -> (runtime: Self)
        ensures
            runtime.spec_revision() == revision,
            runtime.spec_catalog() == catalog@,
            runtime.spec_storage() == selection_storage,
            runtime.spec_backend() == backend,
    {
        DataPlaneNodeRuntime {
            backend,
            selection_storage,
            revision,
            catalog,
            selection_operation: std::sync::atomic::AtomicBool::new(false),
        }
    }

    pub fn revision(&self) -> (v: ConfigurationRevision)
        ensures
            v == self.spec_revision(),
    {
        self.revision
    }

    pub fn catalog(&self) -> (v: &SelectorCatalog)
        ensures
            v@ == self.spec_catalog(),
    {
        &self.catalog
    }

    /// The group of `selector_id`, when `node_id` is one of its nodes.
    pub fn require_group_node(&self, selector_id: &str, node_id: &str) -> (r: Result<
        &SelectorGroup,
        NodeRuntimeError,
    >)
        ensures
            match spec_target_check(
                self.spec_catalog(),
                utf8_bytes(selector_id@),
                utf8_bytes(node_id@),
            ) {
                Ok(i) => r matches Ok(group) && group@ == self.spec_catalog().groups[i],
                Err(e) => r == Err::<&SelectorGroup, NodeRuntimeError>(e),
            },
            r matches Ok(group) ==> self.spec_catalog().groups.contains(group@),
    {
        proof {
            reveal(spec_target_check);
        }
        let group = match self.catalog.group(selector_id) {
            Some(group) => group,
            None => return Err(NodeRuntimeError::UnknownSelector),
        };
        if !group.contains_node(node_id) {
            return Err(NodeRuntimeError::UnknownNode);
        }
        Ok(group)
    }

    fn read_valid_selection(&self, group: &SelectorGroup, selector_id: &str) -> (r: Result<
        String,
        NodeRuntimeError,
    >)
        requires
            self.spec_catalog().groups.contains(group@),
        ensures
            r matches Err(e) ==> self.selection_explained(e),
            r matches Ok(node) ==> node_ids(group@.nodes).contains(utf8_bytes(node@)),
            r matches Ok(node) ==> self.spec_backend().reads(
                self.spec_revision().value(),
                selector_id,
                Ok(node),
            ),
            r matches Err(e) ==> e == NodeRuntimeError::BackendUnavailable || e
                == NodeRuntimeError::SelectionRejected || e
                == NodeRuntimeError::InvalidBackendState,
    {
        let selected = match self.backend.read_selected_node(self.revision, selector_id) {
            Ok(selected) => selected,
            Err(error) => {
                proof {
                    reveal(DataPlaneNodeRuntime::selection_explained);
                }
                assert(self.spec_backend().reads(self.spec_revision().value(), selector_id, Err(error)));
                assert(self.backend_answered_error(error));
                return Err(map_backend_error(error));
            },
        };
        if !group.contains_node(selected.as_str()) {
            proof {
                reveal(DataPlaneNodeRuntime::selection_explained);
            }
            assert(self.spec_backend().reads(self.spec_revision().value(), selector_id, Ok(selected)));
            return Err(NodeRuntimeError::InvalidBackendState);
        }
        Ok(selected)
    }

    /// The node each group of the catalog has selected now, in catalog order.
    fn read_all_selections(&self) -> (r: Result<Vec<(String, String)>, NodeRuntimeError>)
        ensures
            r matches Ok(pairs) ==> pairs@.len() == self.spec_catalog().groups.len() && forall|
                i: int,
            |
                0 <= i < pairs@.len() ==> utf8_bytes((#[trigger] pairs@[i]).0@)
                    == self.spec_catalog().groups[i].id && node_ids(
                    self.spec_catalog().groups[i].nodes,
                ).contains(utf8_bytes(pairs@[i].1@)),
            r matches Err(e) ==> e == NodeRuntimeError::BackendUnavailable || e
                == NodeRuntimeError::SelectionRejected || e
                == NodeRuntimeError::InvalidBackendState,
            r matches Err(e) ==> self.selection_explained(e),
    {
        let ghost groups = self.spec_catalog().groups;
        let mut pairs: Vec<(String, String)> = Vec::new();
        let mut i: usize = 0;
        while i < self.catalog.groups.len()
            invariant
                i <= self.catalog.groups@.len(),
                groups == self.spec_catalog().groups,
                groups == groups_view(self.catalog.groups@),
                pairs@.len() == i,
                forall|k: int|
                    0 <= k < i ==> utf8_bytes((#[trigger] pairs@[k]).0@) == groups[k].id
                        && node_ids(groups[k].nodes).contains(utf8_bytes(pairs@[k].1@)),
            decreases self.catalog.groups@.len() - i,
        {
            let group = &self.catalog.groups[i];
            proof {
                assert(groups[i as int] == group@);
                assert(self.spec_catalog().groups.contains(group@));
            }
            let node = match self.read_valid_selection(group, group.id()) {
                Ok(node) => node,
                Err(error) => return Err(error),
            };
            pairs.push((group.id.clone(), node));
            i += 1;
        }
        Ok(pairs)
    }

    fn apply_and_confirm(&self, selector_id: &str, node_id: &str) -> (r: Result<
        (),
        NodeRuntimeError,
    >)
        ensures
            r matches Err(e) ==> e == NodeRuntimeError::BackendUnavailable || e
                == NodeRuntimeError::SelectionRejected || e
                == NodeRuntimeError::SelectionReadbackMismatch,
            r is Ok ==> self.confirmed(selector_id, node_id),
            r matches Err(e) ==> self.selection_explained(e),
    {
        let selected = self.backend.select_node(self.revision, selector_id, node_id);
        proof {
            lemma_unit_backend_answer(selected);
        }
        if let Err(error) = selected {
            proof {
                reveal(DataPlaneNodeRuntime::selection_explained);
            }
            assert(self.spec_backend().selects(
                self.spec_revision().value(),
                selector_id,
                node_id,
                Err(error),
            ));
            assert(self.backend_answered_error(error));
            return Err(map_backend_error(error));
        }
        let confirmed = match self.backend.read_selected_node(self.revision, selector_id) {
            Ok(confirmed) => confirmed,
            Err(error) => {
                proof {
                    reveal(DataPlaneNodeRuntime::selection_explained);
                }
                assert(self.spec_backend().reads(self.spec_revision().value(), selector_id, Err(error)));
                assert(self.backend_answered_error(error));
                return Err(map_backend_error(error));
            },
        };
        if !bytes_equal(confirmed.as_str().as_bytes(), node_id.as_bytes()) {
            proof {
                reveal(DataPlaneNodeRuntime::selection_explained);
            }
            assert(self.spec_backend().reads(self.spec_revision().value(), selector_id, Ok(confirmed)));
            assert(confirmed@ != node_id@);
            return Err(NodeRuntimeError::SelectionReadbackMismatch);
        }
        proof {
            lemma_utf8_bytes_injective(confirmed@, node_id@);
        }
        assert(self.spec_backend().reads(self.spec_revision().value(), selector_id, Ok(confirmed)));
        Ok(())
    }

    /// `node_id` was selected in `selector_id` and read back as its selection.
    pub open spec fn confirmed(&self, selector_id: &str, node_id: &str) -> bool {
        &&& self.spec_backend().selects(self.spec_revision().value(), selector_id, node_id, Ok(()))
        &&& exists|read: String|
            #[trigger] self.spec_backend().reads(self.spec_revision().value(), selector_id, Ok(read))
                && read@ == node_id@
    }

    /// The node of `selector_id` was read as `previous`, and, where that was not
    /// `node_id`, `node_id` was selected and read back.
    pub open spec fn switched_from(&self, selector_id: &str, node_id: &str, previous: String) -> bool {
        &&& self.spec_backend().reads(self.spec_revision().value(), selector_id, Ok(previous))
        &&& previous@ != node_id@ ==> self.confirmed(selector_id, node_id)
    }

    /// The node of `selector_id` was switched to `node_id` as `switched_from`
    /// says, from the node read before.
    pub open spec fn switched(&self, selector_id: &str, node_id: &str) -> bool {
        exists|previous: String| #[trigger] self.switched_from(selector_id, node_id, previous)
    }

    fn rollback_one(&self, selector_id: &str, previous: &str, original: NodeRuntimeError) -> (r:
        NodeRuntimeError)
        ensures
            r == original || r == NodeRuntimeError::RollbackFailed,
            r != NodeRuntimeError::RollbackFailed ==> self.confirmed(selector_id, previous),
            r == NodeRuntimeError::RollbackFailed && original != NodeRuntimeError::RollbackFailed
                ==> self.selection_explained(r),
            self.selection_explained(original) ==> self.selection_explained(r),
    {
        let restored = self.apply_and_confirm(selector_id, previous);
        proof {
            reveal(DataPlaneNodeRuntime::selection_explained);
            match restored {
                Err(e) => {
                    match e {
                        NodeRuntimeError::BackendUnavailable | NodeRuntimeError::SelectionRejected => {
                            let error = choose|error: NodeBackendError|
                                #[trigger] self.backend_answered_error(error) && spec_backend_error(error) == e;
                            assert(self.backend_answered_error(error));
                        },
                        _ => {},
                    }
                },
                Ok(_) => {},
            }
        }
        after_rollback(original, restored.is_ok())
    }

    /// Puts `before`, the node read as `previous` before the change, back in
    /// `selector_id` after a failure.
    fn roll_back(&self, selector_id: &str, before: &str, previous: &String, original: NodeRuntimeError) -> (r:
        NodeRuntimeError)
        requires
            self.spec_backend().reads(self.spec_revision().value(), selector_id, Ok(*previous)),
            previous@ == before@,
        ensures
            r == original || r == NodeRuntimeError::RollbackFailed,
            r != NodeRuntimeError::RollbackFailed ==> self.restored_to(selector_id, before),
            self.selection_explained(original) ==> self.selection_explained(r),
    {
        self.rollback_one(selector_id, before, original)
    }

    /// The node of `selector_id` was read as `previous` before the change, and
    /// was selected and read back again after it.
    pub open spec fn restored_to(&self, selector_id: &str, previous: &str) -> bool {
        &&& exists|read: String|
            #[trigger] self.spec_backend().reads(self.spec_revision().value(), selector_id, Ok(read))
                && read@ == previous@
        &&& self.confirmed(selector_id, previous)
    }

    /// Puts every group of `previous` back, last first: the original error
    /// stands when all were restored, `RollbackFailed` otherwise. A group that
    /// the catalog does not hold cannot be restored.
    #[verifier::rlimit(30)]
    fn rollback_all(&self, previous: &Vec<(String, String)>, original: NodeRuntimeError) -> (r:
        NodeRuntimeError)
        requires
            self.keys_in_catalog(previous@),
        ensures
            r != original ==> self.selection_explained(NodeRuntimeError::RollbackFailed),
            r == original || r == NodeRuntimeError::RollbackFailed,
            previous@.len() == 0 ==> r == original,
            (exists|k: int|
                0 <= k < previous@.len() && first_group_index(
                    self.spec_catalog().groups,
                    utf8_bytes((#[trigger] previous@[k]).0@),
                ) is None) ==> r == NodeRuntimeError::RollbackFailed,
    {
        let mut restored = true;
        let mut remaining = previous.len();
        while remaining > 0
            invariant
                remaining <= previous@.len(),
                (exists|k: int|
                    remaining <= k < previous@.len() && first_group_index(
                        self.spec_catalog().groups,
                        utf8_bytes((#[trigger] previous@[k]).0@),
                    ) is None) ==> !restored,
                remaining == previous@.len() ==> restored,
                !restored ==> self.selection_explained(NodeRuntimeError::RollbackFailed),
                self.keys_in_catalog(previous@),
            decreases remaining,
        {
            remaining -= 1;
            let outcome = match self.catalog.group(previous[remaining].0.as_str()) {
                Some(group) => {
                    let applied = self.apply_and_confirm(group.id(), previous[remaining].1.as_str());
                    proof {
                        if let Err(e) = applied {
                            reveal(DataPlaneNodeRuntime::selection_explained);
                        }
                    }
                    applied.is_ok()
                },
                None => {
                    assert(catalog_has(
                        self.spec_catalog().groups,
                        utf8_bytes(previous@[remaining as int].0@),
                    ));
                    false
                },
            };
            restored = restored && outcome;
        }
        after_rollback(original, restored)
    }

    fn select_node_locked(&self, group: &SelectorGroup, selector_id: &str, node_id: &str) -> (r:
        Result<ConfirmedNodeSelection, NodeRuntimeError>)
        requires
            self.spec_catalog().groups.contains(group@),
        ensures
            r matches Ok(selection) ==> selection@ == (SelectionView {
                selector_id: utf8_bytes(selector_id@),
                node_id: utf8_bytes(node_id@),
                source: NodeSelectionSource::Confirmed,
            }),
            r matches Err(e) ==> is_operation_error(e),
            r is Ok ==> selections_stored(self.spec_storage(), self.spec_revision()),
            r is Ok ==> self.switched(selector_id, node_id),
            r == Err::<ConfirmedNodeSelection, NodeRuntimeError>(NodeRuntimeError::Persistence)
                || r == Err::<ConfirmedNodeSelection, NodeRuntimeError>(
                NodeRuntimeError::SelectionReadbackMismatch,
            ) ==> exists|previous: &str| #[trigger] self.restored_to(selector_id, previous),
            r matches Err(e) ==> self.selection_explained(e),
    {
        let previous = self.read_valid_selection(group, selector_id)?;
        let before: &str = previous.as_str();
        assert(self.spec_backend().reads(self.spec_revision().value(), selector_id, Ok(previous)));
        if !bytes_equal(previous.as_str().as_bytes(), node_id.as_bytes()) {
            if let Err(error) = self.apply_and_confirm(selector_id, node_id) {
                return Err(self.roll_back(selector_id, before, &previous, error));
            }
        }
        proof {
            lemma_utf8_bytes_injective(previous@, node_id@);
        }
        assert(self.switched_from(selector_id, node_id, previous));
        let confirmed = match self.read_all_selections() {
            Ok(confirmed) => confirmed,
            Err(error) => return Err(self.roll_back(selector_id, before, &previous, error)),
        };
        let ledger = match DataPlaneNodeSelectionLedger::new(self.revision, confirmed) {
            Ok(ledger) => ledger,
            Err(_) => {
                proof {
                    self.lemma_explained_without_backend(NodeRuntimeError::Persistence);
                }
                return Err(
                    self.roll_back(selector_id, before, &previous, NodeRuntimeError::Persistence),
                );
            },
        };
        match self.selection_storage.replace_node_selections(&ledger) {
            Ok(stored) => {
                assert(self.spec_storage().replaces(ledger@, Ok(stored)));
            },
            Err(_) => {
                proof {
                    self.lemma_explained_without_backend(NodeRuntimeError::Persistence);
                }
                return Err(
                    self.roll_back(selector_id, before, &previous, NodeRuntimeError::Persistence),
                );
            },
        }
        Ok(
            ConfirmedNodeSelection::new(
                selector_id.to_owned(),
                node_id.to_owned(),
                NodeSelectionSource::Confirmed,
            ),
        )
    }

    /// Selects `node_id` in the selector `selector_id`, confirms it by reading it
    /// back, and remembers the selections of all groups; on any failure after
    /// the change the previous node is put back.
    pub fn select_node(&self, selector_id: &str, node_id: &str) -> (r: Result<
        ConfirmedNodeSelection,
        NodeRuntimeError,
    >)
        ensures
            spec_target_check(
                self.spec_catalog(),
                utf8_bytes(selector_id@),
                utf8_bytes(node_id@),
            ) matches Err(e) ==> r == Err::<ConfirmedNodeSelection, NodeRuntimeError>(e),
            r matches Ok(selection) ==> {
                &&& spec_target_check(
                    self.spec_catalog(),
                    utf8_bytes(selector_id@),
                    utf8_bytes(node_id@),
                ) is Ok
                &&& selection@ == (SelectionView {
                    selector_id: utf8_bytes(selector_id@),
                    node_id: utf8_bytes(node_id@),
                    source: NodeSelectionSource::Confirmed,
                })
            },
            r matches Err(e) ==> is_operation_error(e) || e == NodeRuntimeError::UnknownNode,
            r is Ok ==> selections_stored(self.spec_storage(), self.spec_revision()),
            r is Ok ==> self.switched(selector_id, node_id),
            r == Err::<ConfirmedNodeSelection, NodeRuntimeError>(NodeRuntimeError::Persistence)
                || r == Err::<ConfirmedNodeSelection, NodeRuntimeError>(
                NodeRuntimeError::SelectionReadbackMismatch,
            ) ==> exists|previous: &str| #[trigger] self.restored_to(selector_id, previous),
            r matches Err(e) ==> self.selection_explained(e),
    {
        proof {
            lemma_target_check_errors(
                self.spec_catalog(),
                utf8_bytes(selector_id@),
                utf8_bytes(node_id@),
            );
        }
        let group = match self.require_group_node(selector_id, node_id) {
            Ok(group) => group,
            Err(error) => {
                proof {
                    self.lemma_explained_without_backend(error);
                }
                return Err(error);
            },
        };
        if !try_begin_operation(&self.selection_operation) {
            proof {
                self.lemma_explained_without_backend(NodeRuntimeError::OperationInProgress);
            }
            return Err(NodeRuntimeError::OperationInProgress);
        }
        let result = self.select_node_locked(group, selector_id, node_id);
        end_operation(&self.selection_operation);
        result
    }

    fn restore_locked(&self) -> (r: Result<SelectionRestoreOutcome, NodeRuntimeError>)
        ensures
            r matches Ok(outcome) ==> restore_outcome_valid(
                self.spec_catalog(),
                self.spec_revision(),
                outcome,
            ),
            r matches Ok(outcome) ==> restore_outcome(
                self.spec_storage(),
                self.spec_catalog(),
                self.spec_revision(),
                outcome,
            ),
            r matches Err(e) ==> is_operation_error(e),
            r matches Err(e) ==> self.restore_explained(e),
    {
        let loaded = self.selection_storage.load_node_selections();
        let persisted = match loaded {
            Ok(persisted) => persisted,
            Err(error) => {
                assert(self.spec_storage().reads_selections(Err(error)));
                return Err(NodeRuntimeError::Persistence);
            },
        };
        assert(self.spec_storage().reads_selections(Ok(persisted@)));
        let previous = match self.read_all_selections() {
            Ok(previous) => previous,
            Err(error) => return Err(error),
        };
        assert forall|k: int| 0 <= k < previous@.len() implies catalog_has(
            self.spec_catalog().groups,
            utf8_bytes(#[trigger] previous@[k].0@),
        ) by {
            assert(self.spec_catalog().groups[k].id == utf8_bytes(previous@[k].0@));
        }
        let (desired, outcomes) = plan_restore(&self.catalog, &persisted);
        let ghost groups = self.spec_catalog().groups;
        let mut i: usize = 0;
        while i < desired.len()
            invariant
                i <= desired@.len(),
                self.keys_in_catalog(previous@),
                groups == self.spec_catalog().groups,
                desired@.len() == groups.len(),
                forall|j: int| 0 <= j < desired@.len() ==> utf8_bytes((#[trigger] desired@[j]).0@) == groups[j].id,
            decreases desired@.len() - i,
        {
            let group = match self.catalog.group(desired[i].0.as_str()) {
                Some(group) => group,
                None => {
                    assert(groups[i as int].id == utf8_bytes(desired@[i as int].0@));
                    assert(false);
                    return Err(NodeRuntimeError::UnknownSelector);
                },
            };
            if let Err(error) = self.apply_and_confirm(group.id(), desired[i].1.as_str()) {
                let r = self.rollback_all(&previous, error);
                return Err(r);
            }
            i += 1;
        }
        assert(crate::persistence::input_selections(desired@) =~= restore_plan(groups, persisted@));
        let ledger = match DataPlaneNodeSelectionLedger::new(self.revision, desired) {
            Ok(ledger) => ledger,
            Err(_) => {
                assert(!plan_recordable(self.spec_revision().value(), restore_plan(groups, persisted@)));
                assert(self.storage_refused());
                return Err(self.rollback_all(&previous, NodeRuntimeError::Persistence));
            },
        };
        match self.selection_storage.replace_node_selections(&ledger) {
            Ok(stored) => {
                assert(self.spec_storage().replaces(ledger@, Ok(stored)));
            },
            Err(error) => {
                assert(self.spec_storage().replaces(ledger@, Err(error)));
                assert(self.storage_refused());
                return Err(self.rollback_all(&previous, NodeRuntimeError::Persistence));
            },
        }
        let outcome = SelectionRestoreOutcome {
            schema_version: NODE_RUNTIME_SCHEMA_VERSION,
            revision: self.revision.get(),
            selections: outcomes,
        };
        proof {
            assert forall|k: int| 0 <= k < outcome.spec_selections().len() implies restore_selection_valid(
                self.spec_catalog().groups[k],
                #[trigger] outcome.spec_selections()[k],
            ) by {
                assert(outcome.spec_selections()[k] == outcomes@[k]@);
                let group = self.spec_catalog().groups[k];
                match persisted@.node_for(group.id) {
                    Some(node) => {},
                    None => {},
                }
            }
        }
        Ok(outcome)
    }

    /// Re-applies the remembered selections to the running data plane: for each
    /// group the remembered node where it is still offered, the default
    /// otherwise; remembers the result, and puts every group back on failure.
    pub fn restore_selections(&self) -> (r: Result<SelectionRestoreOutcome, NodeRuntimeError>)
        ensures
            r matches Ok(outcome) ==> restore_outcome_valid(
                self.spec_catalog(),
                self.spec_revision(),
                outcome,
            ),
            r matches Ok(outcome) ==> restore_outcome(
                self.spec_storage(),
                self.spec_catalog(),
                self.spec_revision(),
                outcome,
            ),
            r matches Err(e) ==> is_operation_error(e),
            r matches Err(e) ==> e == NodeRuntimeError::OperationInProgress || self.restore_explained(e),
    {
        if !try_begin_operation(&self.selection_operation) {
            return Err(NodeRuntimeError::OperationInProgress);
        }
        let result = self.restore_locked();
        end_operation(&self.selection_operation);
        result
    }

    /// Checks every target of a delay test against the catalog.
    pub fn check_delay_targets(&self, request: &DelayTestRequest) -> (r: Result<(), NodeRuntimeError>)
        ensures
            r is Ok <==> forall|i: int|
                0 <= i < request@.len() ==> spec_target_check(
                    self.spec_catalog(),
                    (#[trigger] request@[i]).0,
                    request@[i].1,
                ) is Ok,
            r matches Err(e) ==> exists|i: int|
                0 <= i < request@.len() && spec_target_check(
                    self.spec_catalog(),
                    (#[trigger] request@[i]).0,
                    request@[i].1,
                ) == Err::<int, NodeRuntimeError>(e),
    {
        let mut i: usize = 0;
        while i < request.targets.len()
            invariant
                i <= request.targets@.len(),
                request@ == targets_view(request.targets@),
                forall|k: int|
                    0 <= k < i ==> spec_target_check(
                        self.spec_catalog(),
                        (#[trigger] request@[k]).0,
                        request@[k].1,
                    ) is Ok,
            decreases request.targets@.len() - i,
        {
            let target = &request.targets[i];
            proof {
                assert(request@[i as int] == target@);
            }
            if let Err(error) = self.require_group_node(
                target.selector_id.as_str(),
                target.node_id.as_str(),
            ) {
                return Err(error);
            }
            i += 1;
        }
        Ok(())
    }

    /// Probes one target's delay through the backend.
    pub fn probe_target(&self, target: &DelayTestTarget, timeout_ms: u64, cancellation: &CancellationToken) -> Result<
        u32,
        DelayProbeError,
    > {
        self.backend.probe_node_delay(
            self.revision,
            target.selector_id.as_str(),
            target.node_id.as_str(),
            timeout_ms,
            cancellation,
        )
    }

    pub fn read_traffic_counters(&self) -> (r: Result<TrafficCounters, NodeRuntimeError>)
        ensures
            r matches Err(e) ==> e == NodeRuntimeError::BackendUnavailable || e
                == NodeRuntimeError::SelectionRejected,
    {
        match self.backend.traffic_counters(self.revision) {
            Ok(counters) => Ok(counters),
            Err(error) => Err(map_backend_error(error)),
        }
    }
}

/// Whether a reported selection is one that restoring a group may give.
pub open spec fn restore_selection_valid(group: GroupView, selection: SelectionView) -> bool {
    &&& selection.selector_id == group.id
    &&& (selection.source == NodeSelectionSource::Restored ==> node_ids(group.nodes).contains(
        selection.node_id,
    ))
    &&& (selection.source == NodeSelectionSource::DefaultFallback ==> selection.node_id
        == group.default_node_id)
    &&& selection.source != NodeSelectionSource::Confirmed
}

/// Whether a restore outcome reports one valid selection per group, in order.
pub open spec fn restore_outcome_valid(
    catalog: CatalogView,
    revision: ConfigurationRevision,
    outcome: SelectionRestoreOutcome,
) -> bool {
    &&& outcome.spec_revision() == revision.value()
    &&& outcome.spec_selections().len() == catalog.groups.len()
    &&& forall|i: int|
        0 <= i < catalog.groups.len() ==> restore_selection_valid(
            catalog.groups[i],
            #[trigger] outcome.spec_selections()[i],
        )
}

/// The outcome a restore reports for `catalog` at `revision` from the
/// remembered selections `persisted`: per group, in catalog order, the
/// remembered node where the group still offers it, the default otherwise.
pub open spec fn restore_planned(
    catalog: CatalogView,
    revision: ConfigurationRevision,
    persisted: NodeSelectionState,
    outcome: SelectionRestoreOutcome,
) -> bool {
    &&& outcome.spec_revision() == revision.value()
    &&& outcome.spec_selections().len() == catalog.groups.len()
    &&& forall|i: int|
        0 <= i < catalog.groups.len() ==> #[trigger] outcome.spec_selections()[i] == (SelectionView {
            selector_id: catalog.groups[i].id,
            node_id: restore_choice(catalog.groups[i], persisted).0,
            source: restore_choice(catalog.groups[i], persisted).1,
        })
}

/// Selections of `revision` were handed to `storage` and it took them.
pub open spec fn selections_stored<S: DataPlaneNodeSelectionStorage>(
    storage: S,
    revision: ConfigurationRevision,
) -> bool {
    exists|ledger: NodeSelectionState, o: PersistenceUpdateOutcome|
        #[trigger] storage.replaces(ledger, Ok(o)) && ledger.revision == Some(revision.value())
}

/// What restoring the selections of `catalog` at `revision` may end in: the
/// remembered selections were read, the outcome is what they plan, and the
/// applied selections were remembered.
pub open spec fn restore_outcome<S: DataPlaneNodeSelectionStorage>(
    storage: S,
    catalog: CatalogView,
    revision: ConfigurationRevision,
    outcome: SelectionRestoreOutcome,
) -> bool {
    &&& exists|persisted: NodeSelectionState|
        #[trigger] storage.reads_selections(Ok(persisted)) && restore_planned(
            catalog,
            revision,
            persisted,
            outcome,
        )
    &&& selections_stored(storage, revision)
}

/// One selector and node to probe.
#[derive(Debug, Clone)]
pub struct DelayTestTarget {
    selector_id: String,
    node_id: String,
}

impl View for DelayTestTarget {
    type V = (Seq<u8>, Seq<u8>);

    closed spec fn view(&self) -> (Seq<u8>, Seq<u8>) {
        (utf8_bytes(self.selector_id@), utf8_bytes(self.node_id@))
    }
}

impl DelayTestTarget {
    pub fn new(selector_id: String, node_id: String) -> (r: Result<Self, NodeRuntimeError>)
        ensures
            r is Ok <==> valid_public_identifier(utf8_bytes(selector_id@))
                && valid_public_identifier(utf8_bytes(node_id@)),
            r matches Ok(target) ==> target@ == (utf8_bytes(selector_id@), utf8_bytes(node_id@)),
            r matches Err(e) ==> e == NodeRuntimeError::InvalidRequest,
    {
        if !is_valid_public_identifier(selector_id.as_str().as_bytes())
            || !is_valid_public_identifier(node_id.as_str().as_bytes()) {
            return Err(NodeRuntimeError::InvalidRequest);
        }
        Ok(DelayTestTarget { selector_id, node_id })
    }

    pub fn selector_id(&self) -> (v: &str)
        ensures
            utf8_bytes(v@) == self@.0,
    {
        self.selector_id.as_str()
    }

    pub fn node_id(&self) -> (v: &str)
        ensures
            utf8_bytes(v@) == self@.1,
    {
        self.node_id.as_str()
    }
}

pub open spec fn targets_view(targets: Seq<DelayTestTarget>) -> Seq<(Seq<u8>, Seq<u8>)> {
    targets.map_values(|target: DelayTestTarget| target@)
}

/// Whether no target occurs twice.
pub open spec fn targets_distinct(targets: Seq<(Seq<u8>, Seq<u8>)>) -> bool {
    forall|i: int, j: int| 0 <= i < j < targets.len() ==> #[trigger] targets[i] != #[trigger] targets[j]
}

/// A batch of delay probes: the targets, how many run at once, and how long
/// each may take.
#[derive(Debug, Clone)]
pub struct DelayTestRequest {
    targets: Vec<DelayTestTarget>,
    concurrency: usize,
    timeout_ms: u64,
}

impl View for DelayTestRequest {
    type V = Seq<(Seq<u8>, Seq<u8>)>;

    closed spec fn view(&self) -> Seq<(Seq<u8>, Seq<u8>)> {
        targets_view(self.targets@)
    }
}

impl DelayTestRequest {
    pub closed spec fn spec_concurrency(&self) -> usize {
        self.concurrency
    }

    pub closed spec fn spec_timeout_ms(&self) -> u64 {
        self.timeout_ms
    }

    /// A request; refused unless it has one to 64 distinct targets, a
    /// concurrency of one to eight, and a timeout of 100 ms to 60 s.
    pub fn new(targets: Vec<DelayTestTarget>, concurrency: usize, timeout_ms: u64) -> (r: Result<
        Self,
        NodeRuntimeError,
    >)
        ensures
            r is Ok <==> {
                &&& 1 <= targets@.len() <= MAX_DELAY_TEST_TARGETS
                &&& 1 <= concurrency <= MAX_DELAY_TEST_CONCURRENCY
                &&& MIN_DELAY_TEST_TIMEOUT_MS <= timeout_ms <= MAX_DELAY_TEST_TIMEOUT_MS
                &&& targets_distinct(targets_view(targets@))
            },
            r matches Ok(request) ==> request@ == targets_view(targets@)
                && request.spec_concurrency() == concurrency && request.spec_timeout_ms()
                == timeout_ms,
            r matches Err(e) ==> e == NodeRuntimeError::InvalidRequest,
    {
        if targets.len() == 0 || targets.len() > MAX_DELAY_TEST_TARGETS || concurrency < 1
            || concurrency > MAX_DELAY_TEST_CONCURRENCY || timeout_ms < MIN_DELAY_TEST_TIMEOUT_MS
            || timeout_ms > MAX_DELAY_TEST_TIMEOUT_MS {
            return Err(NodeRuntimeError::InvalidRequest);
        }
        let ghost view = targets_view(targets@);
        let mut j: usize = 0;
        while j < targets.len()
            invariant
                j <= targets@.len(),
                view == targets_view(targets@),
                view.len() == targets@.len(),
                forall|a: int, b: int| 0 <= a < b < j ==> #[trigger] view[a] != #[trigger] view[b],
            decreases targets@.len() - j,
        {
            let mut i: usize = 0;
            while i < j
                invariant
                    i <= j < targets@.len(),
                    view == targets_view(targets@),
                    view.len() == targets@.len(),
                    forall|a: int| 0 <= a < i ==> #[trigger] view[a] != view[j as int],
                decreases j - i,
            {
                proof {
                    assert(view[i as int] == targets@[i as int]@);
                    assert(view[j as int] == targets@[j as int]@);
                }
                if bytes_equal(
                    targets[i].selector_id.as_str().as_bytes(),
                    targets[j].selector_id.as_str().as_bytes(),
                ) && bytes_equal(
                    targets[i].node_id.as_str().as_bytes(),
                    targets[j].node_id.as_str().as_bytes(),
                ) {
                    return Err(NodeRuntimeError::InvalidRequest);
                }
                i += 1;
            }
            j += 1;
        }
        Ok(DelayTestRequest { targets, concurrency, timeout_ms })
    }

    pub fn targets(&self) -> (v: &[DelayTestTarget])
        ensures
            targets_view(v@) == self@,
    {
        self.targets.as_slice()
    }

    pub fn concurrency(&self) -> (v: usize)
        ensures
            v == self.spec_concurrency(),
    {
        self.concurrency
    }

    pub fn timeout_ms(&self) -> (v: u64)
        ensures
            v == self.spec_timeout_ms(),
    {
        self.timeout_ms
    }

    /// How many probes run at once: the concurrency, but no more than targets.
    pub fn worker_count(&self) -> (v: usize)
        ensures
            v == if self.spec_concurrency() < self@.len() {
                self.spec_concurrency()
            } else {
                self@.len() as usize
            },
    {
        if self.concurrency < self.targets.len() {
            self.concurrency
        } else {
            self.targets.len()
        }
    }
}

#[derive(Debug, Clone, Copy, PartialEq, Eq, Structural)]
pub enum NodeDelayStatus {
    Available { delay_ms: u32 },
    TimedOut,
    Cancelled,
    Unavailable,
}

/// The status a probe ends in: cancellation wins, then an overrun of the
/// timeout; a delay counts only when it is positive and within the timeout; a
/// probe that failed to return (`None`) counts as unavailable.
pub open spec fn spec_delay_status(
    cancelled: bool,
    overran: bool,
    probe: Option<Result<u32, DelayProbeError>>,
    timeout_ms: u64,
) -> NodeDelayStatus {
    if cancelled {
        NodeDelayStatus::Cancelled
    } else if overran {
        NodeDelayStatus::TimedOut
    } else {
        match probe {
            Some(Ok(delay_ms)) => if delay_ms > 0 && delay_ms <= timeout_ms {
                NodeDelayStatus::Available { delay_ms }
            } else {
                NodeDelayStatus::Unavailable
            },
            Some(Err(DelayProbeError::TimedOut)) => NodeDelayStatus::TimedOut,
            Some(Err(DelayProbeError::Cancelled)) => NodeDelayStatus::Cancelled,
            Some(Err(DelayProbeError::Unavailable)) => NodeDelayStatus::Unavailable,
            None => NodeDelayStatus::Unavailable,
        }
    }
}

/// How a probe is classified. A cancelled probe is cancelled and an overrun
/// one timed out, whatever the backend said; otherwise an error the backend
/// reports is carried over as the same status, a missing answer is
/// unavailable, and a delay is available exactly when it is positive and
/// within the timeout, with that delay.
pub proof fn law_delay_status_classes(
    cancelled: bool,
    overran: bool,
    probe: Option<Result<u32, DelayProbeError>>,
    timeout_ms: u64,
)
    ensures
        cancelled ==> spec_delay_status(cancelled, overran, probe, timeout_ms)
            == NodeDelayStatus::Cancelled,
        !cancelled && overran ==> spec_delay_status(cancelled, overran, probe, timeout_ms)
            == NodeDelayStatus::TimedOut,
        !cancelled && !overran && probe == Some(Err::<u32, DelayProbeError>(DelayProbeError::TimedOut))
            ==> spec_delay_status(cancelled, overran, probe, timeout_ms) == NodeDelayStatus::TimedOut,
        !cancelled && !overran && probe == Some(Err::<u32, DelayProbeError>(DelayProbeError::Cancelled))
            ==> spec_delay_status(cancelled, overran, probe, timeout_ms) == NodeDelayStatus::Cancelled,
        !cancelled && !overran && probe == Some(
            Err::<u32, DelayProbeError>(DelayProbeError::Unavailable),
        ) ==> spec_delay_status(cancelled, overran, probe, timeout_ms)
            == NodeDelayStatus::Unavailable,
        !cancelled && !overran && probe is None ==> spec_delay_status(
            cancelled,
            overran,
            probe,
            timeout_ms,
        ) == NodeDelayStatus::Unavailable,
        !cancelled && !overran ==> forall|d: u32|
            probe == Some(Ok::<u32, DelayProbeError>(d)) ==> (spec_delay_status(
                cancelled,
                overran,
                probe,
                timeout_ms,
            ) == (if 0 < d && d <= timeout_ms {
                NodeDelayStatus::Available { delay_ms: d }
            } else {
                NodeDelayStatus::Unavailable
            })),
        spec_delay_status(cancelled, overran, probe, timeout_ms) matches NodeDelayStatus::Available {
            delay_ms,
        } ==> !cancelled && !overran && probe == Some(Ok::<u32, DelayProbeError>(delay_ms))
            && 0 < delay_ms <= timeout_ms,
{
}

pub fn delay_status(
    cancelled: bool,
    overran: bool,
    probe: Option<Result<u32, DelayProbeError>>,
    timeout_ms: u64,
) -> (r: NodeDelayStatus)
    ensures
        r == spec_delay_status(cancelled, overran, probe, timeout_ms),
{
    if cancelled {
        NodeDelayStatus::Cancelled
    } else if overran {
        NodeDelayStatus::TimedOut
    } else {
        match probe {
            Some(Ok(delay_ms)) => {
                if delay_ms > 0 && (delay_ms as u64) <= timeout_ms {
                    NodeDelayStatus::Available { delay_ms }
                } else {
                    NodeDelayStatus::Unavailable
                }
            },
            Some(Err(DelayProbeError::TimedOut)) => NodeDelayStatus::TimedOut,
            Some(Err(DelayProbeError::Cancelled)) => NodeDelayStatus::Cancelled,
            Some(Err(DelayProbeError::Unavailable)) => NodeDelayStatus::Unavailable,
            None => NodeDelayStatus::Unavailable,
        }
    }
}

/// The probe result of one target.
#[derive(Debug, Clone)]
pub struct NodeDelayResult {
    selector_id: String,
    node_id: String,
    result: NodeDelayStatus,
}

impl View for NodeDelayResult {
    type V = ((Seq<u8>, Seq<u8>), NodeDelayStatus);

    closed spec fn view(&self) -> ((Seq<u8>, Seq<u8>), NodeDelayStatus) {
        ((utf8_bytes(self.selector_id@), utf8_bytes(self.node_id@)), self.result)
    }
}

impl NodeDelayResult {
    pub fn new(target: &DelayTestTarget, result: NodeDelayStatus) -> (r: Self)
        ensures
            r@ == (target@, result),
    {
        NodeDelayResult {
            selector_id: target.selector_id.clone(),
            node_id: target.node_id.clone(),
            result,
        }
    }

    pub fn selector_id(&self) -> (v: &str)
        ensures
            utf8_bytes(v@) == self@.0.0,
    {
        self.selector_id.as_str()
    }

    pub fn node_id(&self) -> (v: &str)
        ensures
            utf8_bytes(v@) == self@.0.1,
    {
        self.node_id.as_str()
    }

    pub fn result(&self) -> (v: NodeDelayStatus)
        ensures
            v == self@.1,
    {
        self.result
    }
}

/// The results of a delay test, in the order of its targets.
#[derive(Debug, Clone)]
pub struct DelayTestBatch {
    schema_version: u16,
    results: Vec<NodeDelayResult>,
}

pub open spec fn results_view(results: Seq<NodeDelayResult>) -> Seq<((Seq<u8>, Seq<u8>), NodeDelayStatus)> {
    results.map_values(|result: NodeDelayResult| result@)
}

impl DelayTestBatch {
    pub closed spec fn spec_results(&self) -> Seq<((Seq<u8>, Seq<u8>), NodeDelayStatus)> {
        results_view(self.results@)
    }

    /// The batch of all results, or `BackendUnavailable` if a probe left none.
    pub fn collect(results: Vec<Option<NodeDelayResult>>) -> (r: Result<Self, NodeRuntimeError>)
        ensures
            r is Ok <==> forall|i: int| 0 <= i < results@.len() ==> (#[trigger] results@[i]) is Some,
            r matches Ok(batch) ==> batch.spec_results().len() == results@.len() && forall|i: int|
                0 <= i < results@.len() ==> #[trigger] batch.spec_results()[i] == results@[i]->0@,
            r matches Err(e) ==> e == NodeRuntimeError::BackendUnavailable,
    {
        let mut collected: Vec<NodeDelayResult> = Vec::new();
        let mut i: usize = 0;
        while i < results.len()
            invariant
                i <= results@.len(),
                collected@.len() == i,
                forall|k: int| 0 <= k < i ==> (#[trigger] results@[k]) is Some,
                forall|k: int| 0 <= k < i ==> (#[trigger] collected@[k])@ == results@[k]->0@,
            decreases results@.len() - i,
        {
            match &results[i] {
                Some(result) => {
                    let copy = NodeDelayResult {
                        selector_id: result.selector_id.clone(),
                        node_id: result.node_id.clone(),
                        result: result.result,
                    };
                    collected.push(copy);
                },
                None => return Err(NodeRuntimeError::BackendUnavailable),
            }
            i += 1;
        }
        let batch = DelayTestBatch { schema_version: NODE_RUNTIME_SCHEMA_VERSION, results: collected };
        proof {
            assert forall|k: int| 0 <= k < results@.len() implies #[trigger] batch.spec_results()[k]
                == results@[k]->0@ by {
                assert(batch.spec_results()[k] == collected@[k]@);
            }
        }
        Ok(batch)
    }

    pub fn results(&self) -> (v: &[NodeDelayResult])
        ensures
            results_view(v@) == self.spec_results(),
    {
        self.results.as_slice()
    }
}

/// The data plane's byte counters.
#[derive(Debug, Clone, Copy, PartialEq, Eq, Structural)]
pub struct TrafficCounters {
    upload_bytes_total: u64,
    download_bytes_total: u64,
}

impl TrafficCounters {
    #[verifier::type_invariant]
    spec fn counters_valid(self) -> bool {
        self.upload_bytes_total <= MAX_EVENT_INTEGER && self.download_bytes_total
            <= MAX_EVENT_INTEGER
    }

    pub closed spec fn spec_upload(self) -> u64 {
        self.upload_bytes_total
    }

    pub closed spec fn spec_download(self) -> u64 {
        self.download_bytes_total
    }

    /// Counters; refused when one exceeds the largest integer an event carries.
    pub fn new(upload_bytes_total: u64, download_bytes_total: u64) -> (r: Result<
        Self,
        NodeRuntimeError,
    >)
        ensures
            r is Ok <==> upload_bytes_total <= MAX_EVENT_INTEGER && download_bytes_total
                <= MAX_EVENT_INTEGER,
            r matches Ok(c) ==> c.spec_upload() == upload_bytes_total && c.spec_download()
                == download_bytes_total,
            r matches Err(e) ==> e == NodeRuntimeError::TrafficCounterOverflow,
    {
        if upload_bytes_total > MAX_EVENT_INTEGER || download_bytes_total > MAX_EVENT_INTEGER {
            return Err(NodeRuntimeError::TrafficCounterOverflow);
        }
        Ok(TrafficCounters { upload_bytes_total, download_bytes_total })
    }

    pub fn upload_bytes_total(self) -> (v: u64)
        ensures
            v == self.spec_upload(),
            v <= MAX_EVENT_INTEGER,
    {
        proof {
            use_type_invariant(&self);
        }
        self.upload_bytes_total
    }

    pub fn download_bytes_total(self) -> (v: u64)
        ensures
            v == self.spec_download(),
            v <= MAX_EVENT_INTEGER,
    {
        proof {
            use_type_invariant(&self);
        }
        self.download_bytes_total
    }
}

#[derive(Debug, Clone, Copy, PartialEq, Eq, Structural)]
pub enum TrafficDisplayState {
    Active,
    Stopped,
}

/// What the traffic panel shows.
#[derive(Debug, Clone, Copy, PartialEq, Eq, Structural)]
pub struct TrafficDisplay {
    schema_version: u16,
    state: TrafficDisplayState,
    instance_id: Option<u64>,
    upload_bytes_total: u64,
    download_bytes_total: u64,
    upload_bytes_per_second: u64,
    download_bytes_per_second: u64,
}

impl TrafficDisplay {
    /// The display with these values.
    pub closed spec fn spec_new(
        state: TrafficDisplayState,
        instance_id: Option<u64>,
        upload_bytes_total: u64,
        download_bytes_total: u64,
        upload_bytes_per_second: u64,
        download_bytes_per_second: u64,
    ) -> TrafficDisplay {
        TrafficDisplay {
            schema_version: NODE_RUNTIME_SCHEMA_VERSION,
            state,
            instance_id,
            upload_bytes_total,
            download_bytes_total,
            upload_bytes_per_second,
            download_bytes_per_second,
        }
    }

    pub closed spec fn spec_state(self) -> TrafficDisplayState {
        self.state
    }

    pub closed spec fn spec_instance_id(self) -> Option<u64> {
        self.instance_id
    }

    pub closed spec fn spec_upload_total(self) -> u64 {
        self.upload_bytes_total
    }

    pub closed spec fn spec_download_total(self) -> u64 {
        self.download_bytes_total
    }

    pub closed spec fn spec_upload_speed(self) -> u64 {
        self.upload_bytes_per_second
    }

    pub closed spec fn spec_download_speed(self) -> u64 {
        self.download_bytes_per_second
    }

    pub closed spec fn spec_schema_version(self) -> u16 {
        self.schema_version
    }

    pub fn state(self) -> (v: TrafficDisplayState)
        ensures
            v == self.spec_state(),
    {
        self.state
    }

    pub fn instance_id(self) -> (v: Option<u64>)
        ensures
            v == self.spec_instance_id(),
    {
        self.instance_id
    }

    pub fn upload_bytes_total(self) -> (v: u64)
        ensures
            v == self.spec_upload_total(),
    {
        self.upload_bytes_total
    }

    pub fn download_bytes_total(self) -> (v: u64)
        ensures
            v == self.spec_download_total(),
    {
        self.download_bytes_total
    }

    pub fn upload_bytes_per_second(self) -> (v: u64)
        ensures
            v == self.spec_upload_speed(),
    {
        self.upload_bytes_per_second
    }

    pub fn download_bytes_per_second(self) -> (v: u64)
        ensures
            v == self.spec_download_speed(),
    {
        self.download_bytes_per_second
    }
}

/// Bytes per second over `elapsed_ms`, rounded down; `None` when it exceeds the
/// largest integer an event carries.
pub open spec fn spec_bytes_per_second(delta: u64, elapsed_ms: u64) -> Option<u64> {
    let value = (delta as nat * 1000) / (elapsed_ms as nat);
    if value <= MAX_EVENT_INTEGER {
        Some(value as u64)
    } else {
        None
    }
}

pub fn bytes_per_second(delta: u64, elapsed_ms: u64) -> (r: Result<u64, NodeRuntimeError>)
    requires
        elapsed_ms > 0,
    ensures
        match spec_bytes_per_second(delta, elapsed_ms) {
            Some(v) => r == Ok::<u64, NodeRuntimeError>(v),
            None => r == Err::<u64, NodeRuntimeError>(NodeRuntimeError::TrafficCounterOverflow),
        },
{
    let scaled: u128 = (delta as u128) * 1000;
    let value: u128 = scaled / (elapsed_ms as u128);
    if value > MAX_EVENT_INTEGER as u128 {
        return Err(NodeRuntimeError::TrafficCounterOverflow);
    }
    Ok(value as u64)
}

/// The last sample a session took: the counters, the wall-clock time and the
/// monotonic time.
pub type TrafficSampleAt = (TrafficCounters, u64, u64);

/// Turns the counters of one running data-plane instance into traffic events
/// and a display: speeds from consecutive samples, events rate-limited.
pub struct TrafficSession {
    interval_ms: u64,
    throttler: TrafficEventThrottler,
    instance_id: Option<u64>,
    sequence: u64,
    last_sample: Option<(TrafficCounters, u64, u64)>,
    display: TrafficDisplay,
}

impl TrafficSession {
    #[verifier::type_invariant]
    spec fn session_valid(self) -> bool {
        &&& self.interval_ms > 0
        &&& self.throttler.spec_interval_ms() == self.interval_ms
        &&& (self.instance_id is None ==> self.throttler.spec_instance_id() is None
            && self.last_sample is None && self.sequence == 0)
        &&& (self.instance_id matches Some(i) ==> (self.throttler.spec_instance_id() is None
            || self.throttler.spec_instance_id() == Some(i)) && 1 <= i <= MAX_EVENT_INTEGER)
        &&& self.throttler.spec_last_sequence() <= self.sequence
        &&& self.sequence <= MAX_EVENT_INTEGER
    }

    pub closed spec fn spec_interval_ms(&self) -> u64 {
        self.interval_ms
    }

    pub closed spec fn spec_instance_id(&self) -> Option<u64> {
        self.instance_id
    }

    pub closed spec fn spec_sequence(&self) -> u64 {
        self.sequence
    }

    pub closed spec fn spec_last_sample(&self) -> Option<(TrafficCounters, u64, u64)> {
        self.last_sample
    }

    pub closed spec fn spec_display(&self) -> TrafficDisplay {
        self.display
    }

    pub closed spec fn spec_throttler(&self) -> TrafficEventThrottler {
        self.throttler
    }

    /// A stopped session whose events go out at most once per `interval_ms`.
    pub fn new(interval_ms: u64) -> (r: Result<Self, NodeRuntimeError>)
        ensures
            r is Ok <==> interval_ms > 0,
            r matches Err(e) ==> e == NodeRuntimeError::InvalidRequest,
            r matches Ok(session) ==> {
                &&& session.spec_interval_ms() == interval_ms
                &&& session.spec_instance_id() is None
                &&& session.spec_sequence() == 0
                &&& session.spec_last_sample() is None
                &&& session.spec_display() == TrafficDisplay::spec_new(
                    TrafficDisplayState::Stopped,
                    None,
                    0,
                    0,
                    0,
                    0,
                )
            },
    {
        let throttler = match TrafficEventThrottler::new(interval_ms) {
            Ok(throttler) => throttler,
            Err(_) => return Err(NodeRuntimeError::InvalidRequest),
        };
        Ok(
            TrafficSession {
                interval_ms,
                throttler,
                instance_id: None,
                sequence: 0,
                last_sample: None,
                display: TrafficDisplay {
                    schema_version: NODE_RUNTIME_SCHEMA_VERSION,
                    state: TrafficDisplayState::Stopped,
                    instance_id: None,
                    upload_bytes_total: 0,
                    download_bytes_total: 0,
                    upload_bytes_per_second: 0,
                    download_bytes_per_second: 0,
                },
            },
        )
    }

    fn fresh_throttler(&self) -> (t: TrafficEventThrottler)
        ensures
            t.spec_interval_ms() == self.spec_interval_ms(),
            t.spec_instance_id() is None,
            t.spec_last_sequence() == 0,
            t.spec_last_observed() is None,
            t.spec_pending() is None,
    {
        proof {
            use_type_invariant(self);
        }
        TrafficEventThrottler::new(self.interval_ms).unwrap()
    }

    /// Starts counting for the data-plane instance `instance_id`; starting the
    /// instance already counted changes nothing.
    pub fn start(&mut self, instance_id: u64) -> (r: Result<TrafficDisplay, NodeRuntimeError>)
        ensures
            !(1 <= instance_id <= MAX_EVENT_INTEGER) ==> r == Err::<
                TrafficDisplay,
                NodeRuntimeError,
            >(NodeRuntimeError::InvalidRequest) && final(self).spec_display() == old(self).spec_display()
                && final(self).spec_instance_id() == old(self).spec_instance_id(),
            1 <= instance_id <= MAX_EVENT_INTEGER && old(self).spec_instance_id() == Some(
                instance_id,
            ) ==> r == Ok::<TrafficDisplay, NodeRuntimeError>(old(self).spec_display())
                && final(self).spec_display() == old(self).spec_display()
                && final(self).spec_sequence() == old(self).spec_sequence()
                && final(self).spec_last_sample() == old(self).spec_last_sample()
                && final(self).spec_instance_id() == old(self).spec_instance_id(),
            1 <= instance_id <= MAX_EVENT_INTEGER && old(self).spec_instance_id() != Some(
                instance_id,
            ) ==> {
                let display = TrafficDisplay::spec_new(
                    TrafficDisplayState::Active,
                    Some(instance_id),
                    0,
                    0,
                    0,
                    0,
                );
                &&& r == Ok::<TrafficDisplay, NodeRuntimeError>(display)
                &&& final(self).spec_display() == display
                &&& final(self).spec_instance_id() == Some(instance_id)
                &&& final(self).spec_sequence() == 0
                &&& final(self).spec_last_sample() is None
            },
            final(self).spec_interval_ms() == old(self).spec_interval_ms(),
    {
        proof {
            use_type_invariant(&*self);
        }
        if instance_id == 0 || instance_id > MAX_EVENT_INTEGER {
            return Err(NodeRuntimeError::InvalidRequest);
        }
        if self.instance_id == Some(instance_id) {
            return Ok(self.display);
        }
        let throttler = self.fresh_throttler();
        let display = TrafficDisplay {
            schema_version: NODE_RUNTIME_SCHEMA_VERSION,
            state: TrafficDisplayState::Active,
            instance_id: Some(instance_id),
            upload_bytes_total: 0,
            download_bytes_total: 0,
            upload_bytes_per_second: 0,
            download_bytes_per_second: 0,
        };
        *self = TrafficSession {
            interval_ms: self.interval_ms,
            throttler,
            instance_id: Some(instance_id),
            sequence: 0,
            last_sample: None,
            display,
        };
        Ok(display)
    }

    /// Takes the next sample, numbered one after the last.
    pub fn observe(&mut self, counters: TrafficCounters, occurred_at_unix_ms: u64, monotonic_ms: u64) -> (r:
        Result<Option<EventEnvelope>, NodeRuntimeError>)
        ensures
            old(self).spec_sequence() >= MAX_EVENT_INTEGER ==> r == Err::<
                Option<EventEnvelope>,
                NodeRuntimeError,
            >(NodeRuntimeError::TrafficCounterOverflow) && *final(self) == *old(self),
            old(self).spec_sequence() < MAX_EVENT_INTEGER ==> old(self).observed_as(
                *final(self),
                r,
                counters,
                (old(self).spec_sequence() + 1) as u64,
                occurred_at_unix_ms,
                monotonic_ms,
            ),
    {
        proof {
            use_type_invariant(&*self);
        }
        if self.sequence >= MAX_EVENT_INTEGER {
            return Err(NodeRuntimeError::TrafficCounterOverflow);
        }
        let sequence = self.sequence + 1;
        self.observe_with_sequence(counters, sequence, occurred_at_unix_ms, monotonic_ms)
    }

    /// How a sample taken with `sequence` moves this session to `next`, with the
    /// result `r`.
    pub open spec fn observed_as(
        self,
        next: TrafficSession,
        r: Result<Option<EventEnvelope>, NodeRuntimeError>,
        counters: TrafficCounters,
        sequence: u64,
        occurred_at_unix_ms: u64,
        monotonic_ms: u64,
    ) -> bool {
        match self.spec_instance_id() {
            None => r == Err::<Option<EventEnvelope>, NodeRuntimeError>(
                NodeRuntimeError::TrafficInactive,
            ) && next == self,
            Some(instance_id) => if sequence == 0 || sequence <= self.spec_sequence() || sequence
                > MAX_EVENT_INTEGER {
                r == Err::<Option<EventEnvelope>, NodeRuntimeError>(
                    NodeRuntimeError::InvalidRequest,
                ) && next == self
            } else {
                match self.spec_last_sample() {
                    Some((previous, previous_at, previous_monotonic)) => if monotonic_ms
                        <= previous_monotonic || occurred_at_unix_ms < previous_at {
                        r == Err::<Option<EventEnvelope>, NodeRuntimeError>(
                            NodeRuntimeError::TrafficClockRegression,
                        ) && next == self
                    } else if counters.spec_upload() < previous.spec_upload()
                        || counters.spec_download() < previous.spec_download() {
                        r == Err::<Option<EventEnvelope>, NodeRuntimeError>(
                            NodeRuntimeError::TrafficCounterRegression,
                        ) && next == self
                    } else {
                        let elapsed = (monotonic_ms - previous_monotonic) as u64;
                        let up = spec_bytes_per_second(
                            (counters.spec_upload() - previous.spec_upload()) as u64,
                            elapsed,
                        );
                        let down = spec_bytes_per_second(
                            (counters.spec_download() - previous.spec_download()) as u64,
                            elapsed,
                        );
                        if up is None || down is None {
                            r == Err::<Option<EventEnvelope>, NodeRuntimeError>(
                                NodeRuntimeError::TrafficCounterOverflow,
                            ) && next == self
                        } else {
                            self.sample_recorded(
                                next,
                                r,
                                instance_id,
                                counters,
                                sequence,
                                occurred_at_unix_ms,
                                monotonic_ms,
                                up->0,
                                down->0,
                            )
                        }
                    },
                    None => self.sample_recorded(
                        next,
                        r,
                        instance_id,
                        counters,
                        sequence,
                        occurred_at_unix_ms,
                        monotonic_ms,
                        0,
                        0,
                    ),
                }
            },
        }
    }

    /// A sample with the given speeds: refused when its time is not a valid
    /// event time or the throttle's clock went backwards, recorded otherwise.
    pub open spec fn sample_recorded(
        self,
        next: TrafficSession,
        r: Result<Option<EventEnvelope>, NodeRuntimeError>,
        instance_id: u64,
        counters: TrafficCounters,
        sequence: u64,
        occurred_at_unix_ms: u64,
        monotonic_ms: u64,
        up: u64,
        down: u64,
    ) -> bool {
        if !(1 <= occurred_at_unix_ms <= MAX_EVENT_INTEGER) {
            r == Err::<Option<EventEnvelope>, NodeRuntimeError>(NodeRuntimeError::InvalidRequest)
                && next == self
        } else if self.spec_throttler().clock_regressed(monotonic_ms) {
            r == Err::<Option<EventEnvelope>, NodeRuntimeError>(
                NodeRuntimeError::TrafficClockRegression,
            ) && next == self
        } else {
            &&& next.spec_interval_ms() == self.spec_interval_ms()
            &&& next.spec_instance_id() == Some(instance_id)
            &&& next.spec_sequence() == sequence
            &&& next.spec_last_sample() == Some((counters, occurred_at_unix_ms, monotonic_ms))
            &&& next.spec_display() == TrafficDisplay::spec_new(
                TrafficDisplayState::Active,
                Some(instance_id),
                counters.spec_upload(),
                counters.spec_download(),
                up,
                down,
            )
            &&& r is Ok
            &&& (r matches Ok(Some(envelope)) ==> {
                &&& envelope.spec_instance_id() == instance_id
                &&& envelope.spec_sequence() == sequence
                &&& envelope.spec_occurred_at_unix_ms() == occurred_at_unix_ms
                &&& envelope.spec_event() matches PlatformEvent::Traffic { sample } && {
                    &&& sample.spec_upload_bytes_total() == counters.spec_upload()
                    &&& sample.spec_download_bytes_total() == counters.spec_download()
                    &&& sample.spec_upload_bytes_per_second() == up
                    &&& sample.spec_download_bytes_per_second() == down
                }
            })
            &&& (self.spec_throttler().spec_instance_id() != Some(instance_id) ==> r matches Ok(
                Some(_),
            ))
        }
    }

    /// Takes a sample numbered `sequence`.
    pub fn observe_with_sequence(
        &mut self,
        counters: TrafficCounters,
        sequence: u64,
        occurred_at_unix_ms: u64,
        monotonic_ms: u64,
    ) -> (r: Result<Option<EventEnvelope>, NodeRuntimeError>)
        ensures
            old(self).observed_as(
                *final(self),
                r,
                counters,
                sequence,
                occurred_at_unix_ms,
                monotonic_ms,
            ),
    {
        proof {
            use_type_invariant(&*self);
        }
        let instance_id = match self.instance_id {
            Some(instance_id) => instance_id,
            None => return Err(NodeRuntimeError::TrafficInactive),
        };
        if sequence == 0 || sequence <= self.sequence || sequence > MAX_EVENT_INTEGER {
            return Err(NodeRuntimeError::InvalidRequest);
        }
        let upload_total = counters.upload_bytes_total();
        let download_total = counters.download_bytes_total();
        let (upload_speed, download_speed) = match self.last_sample {
            Some((previous, previous_occurred_at, previous_monotonic)) => {
                if monotonic_ms <= previous_monotonic || occurred_at_unix_ms < previous_occurred_at {
                    return Err(NodeRuntimeError::TrafficClockRegression);
                }
                if upload_total < previous.upload_bytes_total() || download_total
                    < previous.download_bytes_total() {
                    return Err(NodeRuntimeError::TrafficCounterRegression);
                }
                let elapsed = monotonic_ms - previous_monotonic;
                let up = bytes_per_second(upload_total - previous.upload_bytes_total(), elapsed);
                let down = bytes_per_second(
                    download_total - previous.download_bytes_total(),
                    elapsed,
                );
                match (up, down) {
                    (Ok(up), Ok(down)) => (up, down),
                    _ => return Err(NodeRuntimeError::TrafficCounterOverflow),
                }
            },
            None => (0, 0),
        };
        let sample = match TrafficSample::new(upload_total, download_total, upload_speed, download_speed) {
            Ok(sample) => sample,
            Err(_) => return Err(NodeRuntimeError::TrafficCounterOverflow),
        };
        let envelope = match EventEnvelope::new(
            instance_id,
            sequence,
            occurred_at_unix_ms,
            PlatformEvent::traffic(sample),
        ) {
            Ok(envelope) => envelope,
            Err(_) => return Err(NodeRuntimeError::InvalidRequest),
        };
        let ghost before = *self;
        let mut throttler = self.fresh_throttler();
        std::mem::swap(&mut throttler, &mut self.throttler);
        proof {
            assert(throttler == before.spec_throttler());
            assert(!(throttler.spec_instance_id() == Some(envelope.spec_instance_id())
                && envelope.spec_sequence() <= throttler.spec_last_sequence()));
        }
        let pushed = throttler.push(envelope, monotonic_ms);
        let emitted = match pushed {
            Ok(emitted) => emitted,
            Err(_) => {
                std::mem::swap(&mut throttler, &mut self.throttler);
                return Err(NodeRuntimeError::TrafficClockRegression);
            },
        };
        *self = TrafficSession {
            interval_ms: self.interval_ms,
            throttler,
            instance_id: Some(instance_id),
            sequence,
            last_sample: Some((counters, occurred_at_unix_ms, monotonic_ms)),
            display: TrafficDisplay {
                schema_version: NODE_RUNTIME_SCHEMA_VERSION,
                state: TrafficDisplayState::Active,
                instance_id: Some(instance_id),
                upload_bytes_total: upload_total,
                download_bytes_total: download_total,
                upload_bytes_per_second: upload_speed,
                download_bytes_per_second: download_speed,
            },
        };
        proof {
            assert(!before.spec_throttler().clock_regressed(monotonic_ms));
            assert(1 <= occurred_at_unix_ms <= MAX_EVENT_INTEGER);
            assert(emitted matches Some(e) ==> e == envelope);
            assert(before.sample_recorded(
                *self,
                Ok(emitted),
                instance_id,
                counters,
                sequence,
                occurred_at_unix_ms,
                monotonic_ms,
                upload_speed,
                download_speed,
            ));
        }
        Ok(emitted)
    }

    /// Emits the held-back sample once its interval has passed.
    pub fn flush(&mut self, monotonic_ms: u64) -> (r: Result<Option<EventEnvelope>, NodeRuntimeError>)
        ensures
            old(self).spec_instance_id() is None ==> r == Ok::<
                Option<EventEnvelope>,
                NodeRuntimeError,
            >(None) && *final(self) == *old(self),
            old(self).spec_instance_id() is Some ==> {
                &&& (r is Err <==> old(self).spec_throttler().clock_regressed(monotonic_ms))
                &&& (r matches Err(e) ==> e == NodeRuntimeError::TrafficClockRegression)
                &&& final(self).spec_instance_id() == old(self).spec_instance_id()
                &&& final(self).spec_sequence() == old(self).spec_sequence()
                &&& final(self).spec_last_sample() == old(self).spec_last_sample()
                &&& final(self).spec_display() == old(self).spec_display()
                &&& (r is Ok ==> {
                    let due = old(self).spec_throttler().spec_last_emitted() matches Some(emitted)
                        && crate::observability::saturating_sub(monotonic_ms, emitted)
                        >= old(self).spec_interval_ms()
                        && old(self).spec_throttler().spec_pending() is Some;
                    &&& due ==> r == Ok::<Option<EventEnvelope>, NodeRuntimeError>(
                        old(self).spec_throttler().spec_pending(),
                    )
                    &&& !due ==> r == Ok::<Option<EventEnvelope>, NodeRuntimeError>(None)
                })
            },
    {
        proof {
            use_type_invariant(&*self);
        }
        if self.instance_id.is_none() {
            return Ok(None);
        }
        let mut throttler = self.fresh_throttler();
        std::mem::swap(&mut throttler, &mut self.throttler);
        let flushed = throttler.flush(monotonic_ms);
        *self = TrafficSession {
            interval_ms: self.interval_ms,
            throttler,
            instance_id: self.instance_id,
            sequence: self.sequence,
            last_sample: self.last_sample,
            display: self.display,
        };
        match flushed {
            Ok(emitted) => Ok(emitted),
            Err(_) => Err(NodeRuntimeError::TrafficClockRegression),
        }
    }

    /// Stops counting: the totals stay on display, the speeds drop to zero.
    pub fn stop(&mut self) -> (display: TrafficDisplay)
        ensures
            display == TrafficDisplay::spec_new(
                TrafficDisplayState::Stopped,
                None,
                old(self).spec_display().spec_upload_total(),
                old(self).spec_display().spec_download_total(),
                0,
                0,
            ),
            final(self).spec_display() == display,
            final(self).spec_instance_id() is None,
            final(self).spec_sequence() == 0,
            final(self).spec_last_sample() is None,
            final(self).spec_interval_ms() == old(self).spec_interval_ms(),
    {
        proof {
            use_type_invariant(&*self);
        }
        let throttler = self.fresh_throttler();
        let display = TrafficDisplay {
            schema_version: NODE_RUNTIME_SCHEMA_VERSION,
            state: TrafficDisplayState::Stopped,
            instance_id: None,
            upload_bytes_total: self.display.upload_bytes_total,
            download_bytes_total: self.display.download_bytes_total,
            upload_bytes_per_second: 0,
            download_bytes_per_second: 0,
        };
        *self = TrafficSession {
            interval_ms: self.interval_ms,
            throttler,
            instance_id: None,
            sequence: 0,
            last_sample: None,
            display,
        };
        display
    }

    pub fn display(&self) -> (v: TrafficDisplay)
        ensures
            v == self.spec_display(),
    {
        self.display
    }

    pub fn pending_len(&self) -> (n: usize)
        ensures
            n == (if self.spec_throttler().spec_pending() is Some {
                1usize
            } else {
                0usize
            }),
    {
        self.throttler.pending_len()
    }
}


/// The node runtime of the active revision, if one is installed. Callers
/// share it behind a lock; installing replaces it only when the new runtime
/// could restore its selections.
pub struct SharedDataPlaneNodeRuntime<B, S> {
    active: Option<DataPlaneNodeRuntime<B, S>>,
}

impl<B: DataPlaneNodeBackend, S: DataPlaneNodeSelectionStorage> SharedDataPlaneNodeRuntime<B, S> {
    /// The runtime installed, if any.
    pub closed spec fn spec_runtime(&self) -> Option<DataPlaneNodeRuntime<B, S>> {
        self.active
    }

    pub closed spec fn spec_active(&self) -> Option<(ConfigurationRevision, CatalogView)> {
        match &self.active {
            Some(runtime) => Some((runtime.spec_revision(), runtime.spec_catalog())),
            None => None,
        }
    }

    /// Where the active runtime remembers its selections.
    pub closed spec fn spec_active_storage(&self) -> Option<S> {
        match &self.active {
            Some(runtime) => Some(runtime.spec_storage()),
            None => None,
        }
    }

    pub fn new() -> (r: Self)
        ensures
            r.spec_active() is None,
    {
        SharedDataPlaneNodeRuntime { active: None }
    }

    /// Builds the runtime of `revision` over `catalog`, restores its
    /// selections, and makes it the active one when that succeeds.
    pub fn install_catalog(
        &mut self,
        backend: B,
        selection_storage: S,
        revision: ConfigurationRevision,
        catalog: SelectorCatalog,
    ) -> (r: Result<SelectionRestoreOutcome, NodeRuntimeError>)
        ensures
            r matches Ok(outcome) ==> final(self).spec_active() == Some((revision, catalog@))
                && restore_outcome_valid(catalog@, revision, outcome) && restore_outcome(
                selection_storage,
                catalog@,
                revision,
                outcome,
            ) && final(self).spec_active_storage() == Some(selection_storage),
            r matches Err(e) ==> final(self).spec_active() == old(self).spec_active()
                && is_operation_error(e),
    {
        let candidate = DataPlaneNodeRuntime::from_catalog(
            backend,
            selection_storage,
            revision,
            catalog,
        );
        let restored = candidate.restore_selections()?;
        self.active = Some(candidate);
        Ok(restored)
    }

    /// Makes the runtime of a revision that outlived the application the
    /// active one, after checking its catalog; its selections are left as the
    /// data plane reports them.
    pub fn install_recovered_catalog(
        &mut self,
        backend: B,
        selection_storage: S,
        revision: ConfigurationRevision,
        catalog: SelectorCatalog,
    ) -> (r: Result<(), NodeRuntimeError>)
        ensures
            r is Ok <==> catalog_public_valid(catalog@),
            r is Ok ==> final(self).spec_active() == Some((revision, catalog@)),
            r matches Err(e) ==> e == NodeRuntimeError::InvalidRequest && final(self).spec_active()
                == old(self).spec_active(),
    {
        catalog.validate_public()?;
        self.active = Some(
            DataPlaneNodeRuntime::from_catalog(backend, selection_storage, revision, catalog),
        );
        Ok(())
    }

    /// Removes the active runtime and reports its revision.
    pub fn clear(&mut self) -> (r: Option<ConfigurationRevision>)
        ensures
            final(self).spec_active() is None,
            r == (match old(self).spec_active() {
                Some((revision, _)) => Some(revision),
                None => None::<ConfigurationRevision>,
            }),
    {
        let mut taken = None;
        std::mem::swap(&mut taken, &mut self.active);
        match taken {
            Some(runtime) => Some(runtime.revision()),
            None => None,
        }
    }

    pub fn active_revision(&self) -> (r: Option<ConfigurationRevision>)
        ensures
            r == (match self.spec_active() {
                Some((revision, _)) => Some(revision),
                None => None::<ConfigurationRevision>,
            }),
    {
        match &self.active {
            Some(runtime) => Some(runtime.revision()),
            None => None,
        }
    }

    /// The active runtime, for the operations that run on it.
    pub fn runtime(&self) -> (r: Result<&DataPlaneNodeRuntime<B, S>, NodeRuntimeError>)
        ensures
            self.spec_active() is None ==> r == Err::<&DataPlaneNodeRuntime<B, S>, NodeRuntimeError>(
                NodeRuntimeError::BackendUnavailable,
            ),
            r matches Ok(runtime) ==> self.spec_active() == Some(
                (runtime.spec_revision(), runtime.spec_catalog()),
            ) && self.spec_active_storage() == Some(runtime.spec_storage())
                && self.spec_runtime() == Some(*runtime),
            r matches Err(e) ==> self.spec_active() is None && e
                == NodeRuntimeError::BackendUnavailable,
    {
        match &self.active {
            Some(runtime) => Ok(runtime),
            None => Err(NodeRuntimeError::BackendUnavailable),
        }
    }

    pub fn restore_selections(&self) -> (r: Result<SelectionRestoreOutcome, NodeRuntimeError>)
        ensures
            self.spec_active() is None ==> r == Err::<SelectionRestoreOutcome, NodeRuntimeError>(
                NodeRuntimeError::BackendUnavailable,
            ),
            r matches Ok(outcome) ==> (self.spec_active() matches Some((revision, catalog))
                && restore_outcome_valid(catalog, revision, outcome)),
            r matches Ok(outcome) ==> self.spec_active() is Some && self.spec_active_storage() is Some
                && restore_outcome(
                self.spec_active_storage()->Some_0,
                self.spec_active()->Some_0.1,
                self.spec_active()->Some_0.0,
                outcome,
            ),
            r matches Err(e) ==> e == NodeRuntimeError::BackendUnavailable
                || e == NodeRuntimeError::OperationInProgress || (self.spec_runtime() matches Some(
                runtime,
            ) && runtime.restore_explained(e)),
    {
        let runtime = self.runtime()?;
        runtime.restore_selections()
    }

    pub fn select_node(&self, selector_id: &str, node_id: &str) -> (r: Result<
        ConfirmedNodeSelection,
        NodeRuntimeError,
    >)
        ensures
            self.spec_active() is None ==> r == Err::<ConfirmedNodeSelection, NodeRuntimeError>(
                NodeRuntimeError::BackendUnavailable,
            ),
            r matches Ok(selection) ==> (self.spec_active() matches Some((_, catalog))
                && spec_target_check(catalog, utf8_bytes(selector_id@), utf8_bytes(node_id@)) is Ok
                && selection@ == (SelectionView {
                selector_id: utf8_bytes(selector_id@),
                node_id: utf8_bytes(node_id@),
                source: NodeSelectionSource::Confirmed,
            })),
            self.spec_active() is Some ==> (spec_target_check(
                self.spec_active()->Some_0.1,
                utf8_bytes(selector_id@),
                utf8_bytes(node_id@),
            ) is Err ==> r == Err::<ConfirmedNodeSelection, NodeRuntimeError>(
                spec_target_check(
                    self.spec_active()->Some_0.1,
                    utf8_bytes(selector_id@),
                    utf8_bytes(node_id@),
                )->Err_0,
            )),
            r matches Err(e) ==> is_operation_error(e) || e == NodeRuntimeError::UnknownNode,
            r is Ok ==> self.spec_active() is Some && self.spec_active_storage() is Some
                && selections_stored(self.spec_active_storage()->Some_0, self.spec_active()->Some_0.0),
    {
        match self.runtime() {
            Ok(runtime) => runtime.select_node(selector_id, node_id),
            Err(error) => Err(error),
        }
    }
}

} // verus!
