//! The persisted application settings: the data-plane revision ledger, the
//! remembered node selections, the preferences, the schema migrations and the
//! naming of the generation files that hold them.
use vstd::prelude::*;

use crate::plane_state::{ConnectionMode, NodeSelectionMode, RoutingMode};
use crate::text::{
    all_ascii, append_ascii_char, bytes_have_prefix, bytes_have_suffix, bytes_less, bytes_lt,
    bytes_equal, has_prefix, has_suffix, string_from_ascii,
    is_digit, is_lower_hex_digit, is_valid_public_identifier, lemma_bytes_lt_asymmetric,
    lemma_bytes_lt_irreflexive, lemma_bytes_lt_total, lemma_bytes_lt_transitive, utf8_bytes,
    valid_public_identifier,
};
use crate::vpn::ConfigurationRevision;

verus! {

pub const SETTINGS_SCHEMA_VERSION: u16 = 6;

pub const STORAGE_FORMAT_VERSION: u16 = 1;

pub const MAX_DOCUMENT_BYTES: u64 = 65536;

pub const MAX_PERSISTED_SELECTORS: usize = 8;

pub const MAX_PERSISTED_ID_BYTES: usize = 64;

#[derive(Debug, Clone, Copy, PartialEq, Eq, Structural)]
pub enum LocalePreference {
    System,
    ZhCn,
    EnUs,
}

#[derive(Debug, Clone, Copy, PartialEq, Eq, Structural)]
pub enum ThemePreference {
    System,
    Light,
    Dark,
}

#[derive(Debug, Clone, Copy, PartialEq, Eq, Structural)]
pub enum ReducedMotionPreference {
    System,
    Reduce,
    Allow,
}

#[derive(Debug, Clone, Copy, PartialEq, Eq, Structural)]
pub enum PersistenceUpdateOutcome {
    Changed,
    Unchanged,
}

#[derive(Debug, Clone, Copy, PartialEq, Eq, Structural)]
pub enum PersistenceError {
    InvalidStoragePath,
    InvalidSettings,
    InvalidState,
    CorruptData,
    DocumentTooLarge,
    UnsupportedStorageVersion { found: u64, supported: u16 },
    UnsupportedSchemaVersion { found: u64, supported: u16 },
    GenerationOverflow,
    EntropyUnavailable,
    Io,
}

impl PersistenceError {
    pub fn as_str(self) -> (name: &'static str)
        ensures
            name@ == self.spec_name()@,
    {
        match self {
            PersistenceError::InvalidStoragePath => "persistence-invalid-storage-path",
            PersistenceError::InvalidSettings => "persistence-invalid-settings",
            PersistenceError::InvalidState => "persistence-invalid-state",
            PersistenceError::CorruptData => "persistence-corrupt-data",
            PersistenceError::DocumentTooLarge => "persistence-document-too-large",
            PersistenceError::UnsupportedStorageVersion {
                ..
            } => "persistence-storage-version-unsupported",
            PersistenceError::UnsupportedSchemaVersion {
                ..
            } => "persistence-schema-version-unsupported",
            PersistenceError::GenerationOverflow => "persistence-generation-overflow",
            PersistenceError::EntropyUnavailable => "persistence-entropy-unavailable",
            PersistenceError::Io => "persistence-io-failure",
        }
    }

    pub open spec fn spec_name(self) -> &'static str {
        match self {
            PersistenceError::InvalidStoragePath => "persistence-invalid-storage-path",
            PersistenceError::InvalidSettings => "persistence-invalid-settings",
            PersistenceError::InvalidState => "persistence-invalid-state",
            PersistenceError::CorruptData => "persistence-corrupt-data",
            PersistenceError::DocumentTooLarge => "persistence-document-too-large",
            PersistenceError::UnsupportedStorageVersion {
                ..
            } => "persistence-storage-version-unsupported",
            PersistenceError::UnsupportedSchemaVersion {
                ..
            } => "persistence-schema-version-unsupported",
            PersistenceError::GenerationOverflow => "persistence-generation-overflow",
            PersistenceError::EntropyUnavailable => "persistence-entropy-unavailable",
            PersistenceError::Io => "persistence-io-failure",
        }
    }
}

/// The three revisions a ledger remembers, as plain values.
#[derive(Debug, Clone, Copy, PartialEq, Eq, Structural)]
pub struct RevisionLedgerState {
    pub current: Option<u64>,
    pub previous: Option<u64>,
    pub candidate: Option<u64>,
}

impl RevisionLedgerState {
    /// What a stored ledger must satisfy: no revision is zero, and the current
    /// revision is neither the previous one nor the candidate.
    pub open spec fn valid(self) -> bool {
        &&& self.current != Some(0u64)
        &&& self.previous != Some(0u64)
        &&& self.candidate != Some(0u64)
        &&& (self.current is Some ==> self.current != self.previous)
        &&& (self.current is Some ==> self.current != self.candidate)
    }

    /// Staging `revision` as the candidate.
    pub open spec fn stage(self, revision: u64) -> (
        Result<PersistenceUpdateOutcome, PersistenceError>,
        RevisionLedgerState,
    ) {
        if self.candidate == Some(revision) || (self.current == Some(revision)
            && self.candidate is None) {
            (Ok(PersistenceUpdateOutcome::Unchanged), self)
        } else if self.candidate is Some {
            (Err(PersistenceError::InvalidState), self)
        } else {
            (
                Ok(PersistenceUpdateOutcome::Changed),
                RevisionLedgerState { candidate: Some(revision), ..self },
            )
        }
    }

    /// Committing the candidate `revision` once the data plane is online.
    pub open spec fn commit(self, revision: u64) -> (
        Result<PersistenceUpdateOutcome, PersistenceError>,
        RevisionLedgerState,
    ) {
        if self.current == Some(revision) && self.candidate is None {
            (Ok(PersistenceUpdateOutcome::Unchanged), self)
        } else if self.candidate != Some(revision) {
            (Err(PersistenceError::InvalidState), self)
        } else {
            (
                Ok(PersistenceUpdateOutcome::Changed),
                RevisionLedgerState {
                    current: Some(revision),
                    previous: self.current,
                    candidate: None,
                },
            )
        }
    }

    /// Rejecting the candidate `revision`; gives the revision still current.
    pub open spec fn reject(self, revision: u64) -> (
        Result<Option<u64>, PersistenceError>,
        RevisionLedgerState,
    ) {
        if self.candidate != Some(revision) {
            (Err(PersistenceError::InvalidState), self)
        } else {
            (Ok(self.current), RevisionLedgerState { candidate: None, ..self })
        }
    }

    /// Rolling back to the previous revision `revision`.
    pub open spec fn rollback(self, revision: u64) -> (
        Result<PersistenceUpdateOutcome, PersistenceError>,
        RevisionLedgerState,
    ) {
        if self.current == Some(revision) && self.candidate is None {
            (Ok(PersistenceUpdateOutcome::Unchanged), self)
        } else if self.previous != Some(revision) {
            (Err(PersistenceError::InvalidState), self)
        } else {
            (
                Ok(PersistenceUpdateOutcome::Changed),
                RevisionLedgerState {
                    current: self.previous,
                    previous: self.current,
                    candidate: None,
                },
            )
        }
    }
}

/// The data-plane revisions: the one running, the one before it, and the one
/// being tried.
#[derive(Debug, PartialEq, Eq)]
pub struct DataPlaneRevisionLedger {
    current_revision: Option<u64>,
    previous_revision: Option<u64>,
    candidate_revision: Option<u64>,
}

impl View for DataPlaneRevisionLedger {
    type V = RevisionLedgerState;

    closed spec fn view(&self) -> RevisionLedgerState {
        RevisionLedgerState {
            current: self.current_revision,
            previous: self.previous_revision,
            candidate: self.candidate_revision,
        }
    }
}

impl Clone for DataPlaneRevisionLedger {
    fn clone(&self) -> (copy: Self)
        ensures
            copy@ == self@,
    {
        proof {
            use_type_invariant(self);
        }
        DataPlaneRevisionLedger {
            current_revision: self.current_revision,
            previous_revision: self.previous_revision,
            candidate_revision: self.candidate_revision,
        }
    }
}

/// The revision that a ledger entry holds, where there is one.
pub open spec fn revision_value(r: Option<ConfigurationRevision>) -> Option<u64> {
    match r {
        Some(revision) => Some(revision.value()),
        None => None,
    }
}

impl DataPlaneRevisionLedger {
    #[verifier::type_invariant]
    spec fn ledger_valid(self) -> bool {
        self@.valid()
    }

    /// The empty ledger.
    pub fn new() -> (ledger: Self)
        ensures
            ledger@ == (RevisionLedgerState { current: None, previous: None, candidate: None }),
    {
        DataPlaneRevisionLedger {
            current_revision: None,
            previous_revision: None,
            candidate_revision: None,
        }
    }

    /// A ledger read back from storage; refused unless it is valid.
    pub fn from_stored(current: Option<u64>, previous: Option<u64>, candidate: Option<u64>) -> (r:
        Result<Self, PersistenceError>)
        ensures
            r is Ok <==> (RevisionLedgerState { current, previous, candidate }).valid(),
            r matches Ok(ledger) ==> ledger@ == (RevisionLedgerState {
                current,
                previous,
                candidate,
            }),
            r matches Err(e) ==> e == PersistenceError::InvalidSettings,
    {
        let zero = Some(0u64);
        if current == zero || previous == zero || candidate == zero || (current.is_some()
            && current == previous) || (current.is_some() && current == candidate) {
            return Err(PersistenceError::InvalidSettings);
        }
        Ok(
            DataPlaneRevisionLedger {
                current_revision: current,
                previous_revision: previous,
                candidate_revision: candidate,
            },
        )
    }

    fn to_revision(value: Option<u64>) -> (r: Option<ConfigurationRevision>)
        requires
            value != Some(0u64),
        ensures
            revision_value(r) == value,
    {
        match value {
            Some(v) => Some(ConfigurationRevision::from_nonzero(v)),
            None => None,
        }
    }

    pub fn current_revision(&self) -> (r: Option<ConfigurationRevision>)
        ensures
            revision_value(r) == self@.current,
    {
        proof {
            use_type_invariant(self);
        }
        Self::to_revision(self.current_revision)
    }

    pub fn previous_revision(&self) -> (r: Option<ConfigurationRevision>)
        ensures
            revision_value(r) == self@.previous,
    {
        proof {
            use_type_invariant(self);
        }
        Self::to_revision(self.previous_revision)
    }

    pub fn candidate_revision(&self) -> (r: Option<ConfigurationRevision>)
        ensures
            revision_value(r) == self@.candidate,
    {
        proof {
            use_type_invariant(self);
        }
        Self::to_revision(self.candidate_revision)
    }

    /// The revision to fall back to when the running one fails.
    pub fn active_failure_target(&self) -> (r: Option<ConfigurationRevision>)
        ensures
            revision_value(r) == self@.previous,
    {
        self.previous_revision()
    }

    fn replace_state(&mut self, state: RevisionLedgerState)
        requires
            state.valid(),
        ensures
            final(self)@ == state,
    {
        *self = DataPlaneRevisionLedger {
            current_revision: state.current,
            previous_revision: state.previous,
            candidate_revision: state.candidate,
        };
    }

    pub fn stage_candidate(&mut self, revision: ConfigurationRevision) -> (r: Result<
        PersistenceUpdateOutcome,
        PersistenceError,
    >)
        ensures
            (r, final(self)@) == old(self)@.stage(revision.value()),
    {
        proof {
            use_type_invariant(&*self);
        }
        let revision = revision.get();
        if self.candidate_revision == Some(revision) || (self.current_revision == Some(revision)
            && self.candidate_revision.is_none()) {
            return Ok(PersistenceUpdateOutcome::Unchanged);
        }
        if self.candidate_revision.is_some() {
            return Err(PersistenceError::InvalidState);
        }
        let next = RevisionLedgerState {
            current: self.current_revision,
            previous: self.previous_revision,
            candidate: Some(revision),
        };
        self.replace_state(next);
        Ok(PersistenceUpdateOutcome::Changed)
    }

    pub fn commit_candidate_online(&mut self, revision: ConfigurationRevision) -> (r: Result<
        PersistenceUpdateOutcome,
        PersistenceError,
    >)
        ensures
            (r, final(self)@) == old(self)@.commit(revision.value()),
    {
        proof {
            use_type_invariant(&*self);
        }
        let revision = revision.get();
        if self.current_revision == Some(revision) && self.candidate_revision.is_none() {
            return Ok(PersistenceUpdateOutcome::Unchanged);
        }
        if self.candidate_revision != Some(revision) {
            return Err(PersistenceError::InvalidState);
        }
        let next = RevisionLedgerState {
            current: Some(revision),
            previous: self.current_revision,
            candidate: None,
        };
        self.replace_state(next);
        Ok(PersistenceUpdateOutcome::Changed)
    }

    pub fn reject_candidate(&mut self, revision: ConfigurationRevision) -> (r: Result<
        Option<ConfigurationRevision>,
        PersistenceError,
    >)
        ensures
            (match r {
                Ok(current) => Ok(revision_value(current)),
                Err(e) => Err(e),
            }, final(self)@) == old(self)@.reject(revision.value()),
    {
        proof {
            use_type_invariant(&*self);
        }
        if self.candidate_revision != Some(revision.get()) {
            return Err(PersistenceError::InvalidState);
        }
        let next = RevisionLedgerState {
            current: self.current_revision,
            previous: self.previous_revision,
            candidate: None,
        };
        self.replace_state(next);
        Ok(self.current_revision())
    }

    pub fn commit_rollback(&mut self, revision: ConfigurationRevision) -> (r: Result<
        PersistenceUpdateOutcome,
        PersistenceError,
    >)
        ensures
            (r, final(self)@) == old(self)@.rollback(revision.value()),
    {
        proof {
            use_type_invariant(&*self);
        }
        let revision = revision.get();
        if self.current_revision == Some(revision) && self.candidate_revision.is_none() {
            return Ok(PersistenceUpdateOutcome::Unchanged);
        }
        if self.previous_revision != Some(revision) {
            return Err(PersistenceError::InvalidState);
        }
        let next = RevisionLedgerState {
            current: self.previous_revision,
            previous: self.current_revision,
            candidate: None,
        };
        self.replace_state(next);
        Ok(PersistenceUpdateOutcome::Changed)
    }

    /// The three revisions as stored, for writing the ledger out.
    pub fn stored_parts(&self) -> (parts: (Option<u64>, Option<u64>, Option<u64>))
        ensures
            parts == (self@.current, self@.previous, self@.candidate),
    {
        (self.current_revision, self.previous_revision, self.candidate_revision)
    }

    /// Whether two ledgers hold the same revisions.
    pub fn same_as(&self, other: &Self) -> (r: bool)
        ensures
            r == (self@ == other@),
    {
        self.current_revision == other.current_revision && self.previous_revision
            == other.previous_revision && self.candidate_revision == other.candidate_revision
    }
}

/// Every ledger operation keeps a valid ledger valid, for any non-zero revision.
pub proof fn law_ledger_operations_keep_validity(s: RevisionLedgerState, revision: u64)
    requires
        s.valid(),
        revision != 0,
    ensures
        s.stage(revision).1.valid(),
        s.commit(revision).1.valid(),
        s.reject(revision).1.valid(),
        s.rollback(revision).1.valid(),
{
}

/// A refused operation leaves the ledger as it was.
pub proof fn law_refused_operations_change_nothing(s: RevisionLedgerState, revision: u64)
    ensures
        s.stage(revision).0 is Err ==> s.stage(revision).1 == s,
        s.commit(revision).0 is Err ==> s.commit(revision).1 == s,
        s.reject(revision).0 is Err ==> s.reject(revision).1 == s,
        s.rollback(revision).0 is Err ==> s.rollback(revision).1 == s,
{
}

/// Staging a new revision and then committing it makes it current and keeps the
/// revision it replaced as the previous one.
pub proof fn law_stage_then_commit(s: RevisionLedgerState, revision: u64)
    requires
        s.valid(),
        s.candidate is None,
        s.current != Some(revision),
    ensures
        s.stage(revision).0 == Ok::<PersistenceUpdateOutcome, PersistenceError>(
            PersistenceUpdateOutcome::Changed,
        ),
        s.stage(revision).1.commit(revision) == (
            Ok::<PersistenceUpdateOutcome, PersistenceError>(PersistenceUpdateOutcome::Changed),
            RevisionLedgerState { current: Some(revision), previous: s.current, candidate: None },
        ),
{
}

/// Staging a revision and then rejecting it gives back the ledger as it was,
/// and answers the revision still current.
pub proof fn law_stage_then_reject_restores(s: RevisionLedgerState, revision: u64)
    requires
        s.candidate is None,
        s.current != Some(revision),
    ensures
        s.stage(revision).1.reject(revision) == (
            Ok::<Option<u64>, PersistenceError>(s.current),
            s,
        ),
{
}

/// Rolling back after a commit makes the replaced revision current again and
/// remembers the rolled-back one as previous.
pub proof fn law_commit_then_rollback(s: RevisionLedgerState, revision: u64)
    requires
        s.valid(),
        s.candidate == Some(revision),
        s.current is Some,
    ensures
        s.commit(revision).1.rollback(s.current->0) == (
            Ok::<PersistenceUpdateOutcome, PersistenceError>(PersistenceUpdateOutcome::Changed),
            RevisionLedgerState { current: s.current, previous: Some(revision), candidate: None },
        ),
{
}

/// Repeating a successful stage, commit or rollback changes nothing more.
pub proof fn law_ledger_operations_are_idempotent(s: RevisionLedgerState, revision: u64)
    requires
        s.valid(),
    ensures
        s.stage(revision).0 is Ok ==> s.stage(revision).1.stage(revision) == (
            Ok::<PersistenceUpdateOutcome, PersistenceError>(PersistenceUpdateOutcome::Unchanged),
            s.stage(revision).1,
        ),
        s.commit(revision).0 is Ok ==> s.commit(revision).1.commit(revision) == (
            Ok::<PersistenceUpdateOutcome, PersistenceError>(PersistenceUpdateOutcome::Unchanged),
            s.commit(revision).1,
        ),
        s.rollback(revision).0 is Ok ==> s.rollback(revision).1.rollback(revision) == (
            Ok::<PersistenceUpdateOutcome, PersistenceError>(PersistenceUpdateOutcome::Unchanged),
            s.rollback(revision).1,
        ),
{
}

impl Default for DataPlaneRevisionLedger {
    fn default() -> (ledger: Self)
        ensures
            ledger@ == (RevisionLedgerState { current: None, previous: None, candidate: None }),
    {
        DataPlaneRevisionLedger::new()
    }
}

/// A remembered selection: a selector and the node chosen in it, as bytes.
pub open spec fn selection_bytes(entry: (String, String)) -> (Seq<u8>, Seq<u8>) {
    (utf8_bytes(entry.0@), utf8_bytes(entry.1@))
}

pub open spec fn selections_bytes(entries: Seq<(String, String)>) -> Seq<(Seq<u8>, Seq<u8>)> {
    entries.map_values(|entry: (String, String)| selection_bytes(entry))
}

/// The selectors of `entries` appear in strictly increasing order.
pub open spec fn selectors_sorted(entries: Seq<(Seq<u8>, Seq<u8>)>) -> bool {
    forall|i: int, j: int|
        0 <= i < j < entries.len() ==> bytes_lt(#[trigger] entries[i].0, #[trigger] entries[j].0)
}

/// No selector occurs twice in `entries`.
pub open spec fn selectors_distinct(entries: Seq<(Seq<u8>, Seq<u8>)>) -> bool {
    forall|i: int, j: int|
        0 <= i < j < entries.len() ==> #[trigger] entries[i].0 != #[trigger] entries[j].0
}

/// The node selections as plain values.
pub struct NodeSelectionState {
    pub revision: Option<u64>,
    pub entries: Seq<(Seq<u8>, Seq<u8>)>,
}

impl NodeSelectionState {
    /// What a stored selection ledger must satisfy.
    pub open spec fn valid(self) -> bool {
        &&& self.entries.len() <= MAX_PERSISTED_SELECTORS
        &&& (self.revision is None <==> self.entries.len() == 0)
        &&& self.revision != Some(0u64)
        &&& selectors_sorted(self.entries)
        &&& forall|i: int|
            0 <= i < self.entries.len() ==> valid_public_identifier(#[trigger] self.entries[i].0)
                && valid_public_identifier(self.entries[i].1)
    }

    /// The same conditions on selections in any order: the ordering is the
    /// ledger's own doing.
    pub open spec fn valid_unordered(self) -> bool {
        &&& self.entries.len() <= MAX_PERSISTED_SELECTORS
        &&& (self.revision is None <==> self.entries.len() == 0)
        &&& self.revision != Some(0u64)
        &&& forall|i: int|
            0 <= i < self.entries.len() ==> valid_public_identifier(#[trigger] self.entries[i].0)
                && valid_public_identifier(self.entries[i].1)
    }

    /// The node remembered for `selector`, where there is one.
    pub open spec fn node_for(self, selector: Seq<u8>) -> Option<Seq<u8>> {
        if exists|i: int| 0 <= i < self.entries.len() && #[trigger] self.entries[i].0 == selector {
            let i = choose|i: int| 0 <= i < self.entries.len() && #[trigger] self.entries[i].0 == selector;
            Some(self.entries[i].1)
        } else {
            None
        }
    }
}

/// Whether `entries` holds the same selections as `input`, in selector order.
pub open spec fn sorted_selections_of(
    entries: Seq<(Seq<u8>, Seq<u8>)>,
    input: Seq<(Seq<u8>, Seq<u8>)>,
) -> bool {
    &&& entries.len() == input.len()
    &&& selectors_sorted(entries)
    &&& forall|i: int| 0 <= i < input.len() ==> entries.contains(#[trigger] input[i])
}

/// The node chosen in each selector at one configuration revision.
#[derive(Debug, PartialEq, Eq)]
pub struct DataPlaneNodeSelectionLedger {
    revision: Option<u64>,
    selected_nodes: Vec<(String, String)>,
}

impl View for DataPlaneNodeSelectionLedger {
    type V = NodeSelectionState;

    closed spec fn view(&self) -> NodeSelectionState {
        NodeSelectionState {
            revision: self.revision,
            entries: selections_bytes(self.selected_nodes@),
        }
    }
}

proof fn lemma_sorted_distinct(entries: Seq<(Seq<u8>, Seq<u8>)>)
    requires
        selectors_sorted(entries),
    ensures
        selectors_distinct(entries),
{
    assert forall|i: int, j: int| 0 <= i < j < entries.len() implies #[trigger] entries[i].0
        != #[trigger] entries[j].0 by {
        if entries[i].0 == entries[j].0 {
            lemma_bytes_lt_irreflexive(entries[i].0);
        }
    }
}

fn clone_selections(entries: &Vec<(String, String)>) -> (copy: Vec<(String, String)>)
    ensures
        selections_bytes(copy@) == selections_bytes(entries@),
        copy@.len() == entries@.len(),
        forall|i: int| 0 <= i < entries@.len() ==> (#[trigger] copy@[i]).0@ == entries@[i].0@
            && copy@[i].1@ == entries@[i].1@,
{
    let mut copy: Vec<(String, String)> = Vec::new();
    let mut i: usize = 0;
    while i < entries.len()
        invariant
            i <= entries@.len(),
            copy@.len() == i,
            forall|k: int| 0 <= k < i ==> (#[trigger] copy@[k]).0@ == entries@[k].0@
                && copy@[k].1@ == entries@[k].1@,
        decreases entries@.len() - i,
    {
        let selector = entries[i].0.clone();
        let node = entries[i].1.clone();
        copy.push((selector, node));
        i += 1;
    }
    assert(selections_bytes(copy@) =~= selections_bytes(entries@));
    copy
}

impl Clone for DataPlaneNodeSelectionLedger {
    fn clone(&self) -> (copy: Self)
        ensures
            copy@ == self@,
    {
        proof {
            use_type_invariant(self);
        }
        let selected_nodes = clone_selections(&self.selected_nodes);
        DataPlaneNodeSelectionLedger { revision: self.revision, selected_nodes }
    }
}

impl Default for DataPlaneNodeSelectionLedger {
    fn default() -> (ledger: Self)
        ensures
            ledger@.revision is None,
            ledger@.entries.len() == 0,
    {
        let ledger = DataPlaneNodeSelectionLedger { revision: None, selected_nodes: Vec::new() };
        assert(ledger@.entries =~= Seq::<(Seq<u8>, Seq<u8>)>::empty());
        ledger
    }
}

/// Places one selection into `entries`, kept in selector order; refuses a
/// selector that is already there.
fn insert_selection(entries: &mut Vec<(String, String)>, selector: String, node: String) -> (ok:
    bool)
    requires
        selectors_sorted(selections_bytes(old(entries)@)),
    ensures
        ok <==> !selections_bytes(old(entries)@).map_values(
            |e: (Seq<u8>, Seq<u8>)| e.0,
        ).contains(utf8_bytes(selector@)),
        ok ==> final(entries)@.len() == old(entries)@.len() + 1,
        !ok ==> final(entries)@ == old(entries)@,
        selectors_sorted(selections_bytes(final(entries)@)),
        ok ==> forall|x: (Seq<u8>, Seq<u8>)|
            #![trigger selections_bytes(final(entries)@).contains(x)]
            selections_bytes(final(entries)@).contains(x) <==> (selections_bytes(
                old(entries)@,
            ).contains(x) || x == (utf8_bytes(selector@), utf8_bytes(node@))),
{
    let ghost before = selections_bytes(entries@);
    let ghost key = utf8_bytes(selector@);
    let mut position: usize = 0;
    while position < entries.len()
        invariant
            position <= entries@.len(),
            entries@ == old(entries)@,
            before == selections_bytes(entries@),
            selectors_sorted(before),
            key == utf8_bytes(selector@),
            forall|k: int| 0 <= k < position ==> bytes_lt(#[trigger] before[k].0, key),
        ensures
            position <= entries@.len(),
            forall|k: int| 0 <= k < position ==> bytes_lt(#[trigger] before[k].0, key),
            position == entries@.len() || bytes_lt(key, before[position as int].0),
        decreases entries@.len() - position,
    {
        let existing = entries[position].0.as_str().as_bytes();
        if bytes_equal(existing, selector.as_str().as_bytes()) {
            proof {
                assert(before[position as int].0 == key);
                assert(before.map_values(|e: (Seq<u8>, Seq<u8>)| e.0)[position as int] == key);
            }
            return false;
        }
        if bytes_less(selector.as_str().as_bytes(), existing) {
            break;
        }
        proof {
            lemma_bytes_lt_total(key, before[position as int].0);
        }
        position += 1;
    }
    proof {
        // Every selector from `position` on sorts after `key`.
        assert forall|k: int| position <= k < before.len() implies bytes_lt(
            key,
            #[trigger] before[k].0,
        ) by {
            if k > position {
                lemma_bytes_lt_transitive(key, before[position as int].0, before[k].0);
            }
        }
        assert forall|k: int| 0 <= k < before.len() implies #[trigger] before[k].0 != key by {
            if k < position {
                lemma_bytes_lt_irreflexive(key);
            } else {
                lemma_bytes_lt_irreflexive(key);
            }
        }
        let keys = before.map_values(|e: (Seq<u8>, Seq<u8>)| e.0);
        assert forall|k: int| 0 <= k < keys.len() implies keys[k] != key by {
            assert(keys[k] == before[k].0);
        }
    }
    entries.insert(position, (selector, node));
    proof {
        let after = selections_bytes(entries@);
        let item = (key, utf8_bytes(node@));
        assert(after =~= before.insert(position as int, item));
        assert forall|i: int, j: int| 0 <= i < j < after.len() implies bytes_lt(
            #[trigger] after[i].0,
            #[trigger] after[j].0,
        ) by {
            if j < position {
            } else if j == position {
            } else if i < position {
                lemma_bytes_lt_transitive(before[i].0, key, before[j - 1].0);
            } else if i == position {
            } else {
            }
        }
        assert forall|x: (Seq<u8>, Seq<u8>)| after.contains(x) <==> (before.contains(x) || x
            == item) by {
            if after.contains(x) {
                let k = choose|k: int| 0 <= k < after.len() && after[k] == x;
                if k < position {
                    assert(before[k] == x);
                } else if k > position {
                    assert(before[k - 1] == x);
                }
            }
            if before.contains(x) {
                let k = choose|k: int| 0 <= k < before.len() && before[k] == x;
                if k < position {
                    assert(after[k] == x);
                } else {
                    assert(after[k + 1] == x);
                }
            }
            if x == item {
                assert(after[position as int] == x);
            }
        }
    }
    true
}

/// The selections as byte pairs, in the order given.
pub open spec fn input_selections(selections: Seq<(String, String)>) -> Seq<(Seq<u8>, Seq<u8>)> {
    selections_bytes(selections)
}

impl DataPlaneNodeSelectionLedger {
    #[verifier::type_invariant]
    spec fn selections_valid(self) -> bool {
        self@.valid()
    }

    fn build(revision: Option<u64>, selections: &Vec<(String, String)>) -> (r: Result<
        Self,
        PersistenceError,
    >)
        ensures
            r is Ok <==> {
                &&& selectors_distinct(input_selections(selections@))
                &&& (NodeSelectionState {
                    revision,
                    entries: input_selections(selections@),
                }).valid_unordered()
            },
            r matches Ok(ledger) ==> ledger@.revision == revision && sorted_selections_of(
                ledger@.entries,
                input_selections(selections@),
            ),
            r matches Err(e) ==> e == PersistenceError::InvalidSettings,
    {
        let ghost input = input_selections(selections@);
        let mut entries: Vec<(String, String)> = Vec::new();
        let mut i: usize = 0;
        proof {
            assert(selections_bytes(entries@) =~= Seq::<(Seq<u8>, Seq<u8>)>::empty());
        }
        while i < selections.len()
            invariant
                i <= selections@.len(),
                input == input_selections(selections@),
                selectors_sorted(selections_bytes(entries@)),
                selectors_distinct(input.subrange(0, i as int)),
                selections_bytes(entries@).len() == i,
                forall|x: (Seq<u8>, Seq<u8>)|
                    #![trigger selections_bytes(entries@).contains(x)]
                    selections_bytes(entries@).contains(x) <==> input.subrange(
                        0,
                        i as int,
                    ).contains(x),
            decreases selections@.len() - i,
        {
            let selector = selections[i].0.clone();
            let node = selections[i].1.clone();
            let ghost before = selections_bytes(entries@);
            let ghost item = (utf8_bytes(selector@), utf8_bytes(node@));
            proof {
                assert(input[i as int] == selection_bytes(selections@[i as int]));
                assert(input[i as int] == item);
            }
            if !insert_selection(&mut entries, selector, node) {
                proof {
                    let keys = before.map_values(|e: (Seq<u8>, Seq<u8>)| e.0);
                    let k = choose|k: int| 0 <= k < keys.len() && keys[k] == input[i as int].0;
                    assert(keys[k] == before[k].0);
                    assert(before.contains(before[k]));
                    assert(input.subrange(0, i as int).contains(before[k]));
                    let j = choose|j: int|
                        0 <= j < i && input.subrange(0, i as int)[j] == before[k];
                    assert(input[j].0 == input[i as int].0);
                    assert(!selectors_distinct(input));
                }
                return Err(PersistenceError::InvalidSettings);
            }
            proof {
                let sub = input.subrange(0, i as int);
                let next = input.subrange(0, i as int + 1);
                assert(next =~= sub.push(input[i as int]));
                assert forall|x: (Seq<u8>, Seq<u8>)| sub.contains(x) <==> before.contains(x) by {
                }
                assert forall|a: int, b: int| 0 <= a < b < next.len() implies #[trigger] next[a].0
                    != #[trigger] next[b].0 by {
                    if b == i {
                        let keys = before.map_values(|e: (Seq<u8>, Seq<u8>)| e.0);
                        assert(sub.contains(next[a]));
                        assert(before.contains(next[a]));
                        let k = choose|k: int| 0 <= k < before.len() && before[k] == next[a];
                        assert(keys[k] == next[a].0);
                    } else {
                        assert(sub[a] == next[a] && sub[b] == next[b]);
                    }
                }
                assert forall|x: (Seq<u8>, Seq<u8>)|
                    #![trigger selections_bytes(entries@).contains(x)]
                    selections_bytes(entries@).contains(x) <==> next.contains(x) by {
                    if next.contains(x) {
                        let k = choose|k: int| 0 <= k < next.len() && next[k] == x;
                        if k < i {
                            assert(sub[k] == x);
                        }
                    }
                    if sub.contains(x) {
                        let k = choose|k: int| 0 <= k < sub.len() && sub[k] == x;
                        assert(next[k] == x);
                    }
                    if x == item {
                        assert(next[i as int] == x);
                    }
                    if selections_bytes(entries@).contains(x) {
                        if x != item {
                            assert(before.contains(x));
                            assert(sub.contains(x));
                            let k = choose|k: int| 0 <= k < sub.len() && sub[k] == x;
                            assert(next[k] == x);
                        }
                    }
                }
            }
            i += 1;
        }
        proof {
            assert(input.subrange(0, selections@.len() as int) =~= input);
        }
        let count = entries.len();
        let ghost sorted = selections_bytes(entries@);
        proof {
            assert(input.subrange(0, input.len() as int) =~= input);
        }
        let mut k: usize = 0;
        while k < count
            invariant
                k <= count,
                count == entries@.len(),
                sorted == selections_bytes(entries@),
                input == input_selections(selections@),
                sorted.len() == input.len(),
                forall|x: (Seq<u8>, Seq<u8>)|
                    #![trigger sorted.contains(x)]
                    sorted.contains(x) <==> input.contains(x),
                forall|j: int|
                    0 <= j < k ==> valid_public_identifier(#[trigger] sorted[j].0)
                        && valid_public_identifier(sorted[j].1),
            decreases count - k,
        {
            let selector_bytes = entries[k].0.as_str().as_bytes();
            let node_bytes = entries[k].1.as_str().as_bytes();
            let selector_ok = is_valid_public_identifier(selector_bytes);
            let node_ok = is_valid_public_identifier(node_bytes);
            proof {
                assert(sorted[k as int] == selection_bytes(entries@[k as int]));
                assert(selector_bytes@ == utf8_bytes(entries@[k as int].0@));
                assert(node_bytes@ == utf8_bytes(entries@[k as int].1@));
                assert(selector_ok == valid_public_identifier(sorted[k as int].0));
                assert(node_ok == valid_public_identifier(sorted[k as int].1));
            }
            if !selector_ok || !node_ok {
                proof {
                    assert(sorted.contains(sorted[k as int]));
                    let c = choose|c: int| 0 <= c < input.len() && input[c] == sorted[k as int];
                    assert(!(valid_public_identifier(input[c].0) && valid_public_identifier(
                        input[c].1,
                    )));
                }
                return Err(PersistenceError::InvalidSettings);
            }
            k += 1;
        }
        proof {
            assert forall|j: int| 0 <= j < input.len() implies valid_public_identifier(
                #[trigger] input[j].0,
            ) && valid_public_identifier(input[j].1) by {
                assert(input.contains(input[j]));
                assert(sorted.contains(input[j]));
                let c = choose|c: int| 0 <= c < sorted.len() && sorted[c] == input[j];
                assert(valid_public_identifier(sorted[c].0));
            }
        }
        if count > MAX_PERSISTED_SELECTORS || (revision.is_none() && count != 0) || (
        revision.is_some() && count == 0) || revision == Some(0u64) {
            return Err(PersistenceError::InvalidSettings);
        }
        Ok(DataPlaneNodeSelectionLedger { revision, selected_nodes: entries })
    }

    /// A ledger of the selections made at `revision`; refused when a selector
    /// occurs twice, when there are none or more than eight, or when an id is not
    /// a valid public identifier.
    pub fn new(revision: ConfigurationRevision, selections: Vec<(String, String)>) -> (r: Result<
        Self,
        PersistenceError,
    >)
        ensures
            r is Ok <==> {
                &&& selectors_distinct(input_selections(selections@))
                &&& (NodeSelectionState {
                    revision: Some(revision.value()),
                    entries: input_selections(selections@),
                }).valid_unordered()
            },
            r matches Ok(ledger) ==> ledger@.revision == Some(revision.value())
                && sorted_selections_of(ledger@.entries, input_selections(selections@)),
            r matches Err(e) ==> e == PersistenceError::InvalidSettings,
    {
        Self::build(Some(revision.get()), &selections)
    }

    /// A ledger read back from storage; refused unless it is valid.
    pub fn from_stored(revision: Option<u64>, selections: Vec<(String, String)>) -> (r: Result<
        Self,
        PersistenceError,
    >)
        ensures
            r is Ok <==> {
                &&& selectors_distinct(input_selections(selections@))
                &&& (NodeSelectionState {
                    revision,
                    entries: input_selections(selections@),
                }).valid_unordered()
            },
            r matches Ok(ledger) ==> ledger@.revision == revision && sorted_selections_of(
                ledger@.entries,
                input_selections(selections@),
            ),
            r matches Err(e) ==> e == PersistenceError::InvalidSettings,
    {
        Self::build(revision, &selections)
    }

    pub fn revision(&self) -> (r: Option<ConfigurationRevision>)
        ensures
            revision_value(r) == self@.revision,
    {
        proof {
            use_type_invariant(self);
        }
        match self.revision {
            Some(v) => Some(ConfigurationRevision::from_nonzero(v)),
            None => None,
        }
    }

    /// The node remembered for `selector_id`.
    pub fn selected_node(&self, selector_id: &str) -> (r: Option<&str>)
        ensures
            match r {
                Some(node) => self@.node_for(utf8_bytes(selector_id@)) == Some(
                    utf8_bytes(node@),
                ),
                None => self@.node_for(utf8_bytes(selector_id@)) is None,
            },
    {
        proof {
            use_type_invariant(self);
            lemma_sorted_distinct(self@.entries);
        }
        let ghost entries = self@.entries;
        let ghost key = utf8_bytes(selector_id@);
        let mut i: usize = 0;
        while i < self.selected_nodes.len()
            invariant
                i <= self.selected_nodes@.len(),
                entries == self@.entries,
                entries.len() == self.selected_nodes@.len(),
                key == utf8_bytes(selector_id@),
                selectors_distinct(entries),
                forall|k: int| 0 <= k < i ==> #[trigger] entries[k].0 != key,
            decreases self.selected_nodes@.len() - i,
        {
            if bytes_equal(self.selected_nodes[i].0.as_str().as_bytes(), selector_id.as_bytes()) {
                proof {
                    assert(entries[i as int].0 == key);
                    let c = choose|c: int| 0 <= c < entries.len() && #[trigger] entries[c].0 == key;
                    assert(selectors_distinct(entries));
                    if c != i {
                        if c < i {
                            assert(entries[c].0 != entries[i as int].0);
                        } else {
                            assert(entries[i as int].0 != entries[c].0);
                        }
                    }
                }
                return Some(self.selected_nodes[i].1.as_str());
            }
            i += 1;
        }
        None
    }

    /// The remembered selections, in selector order.
    pub fn selections(&self) -> (r: Vec<(String, String)>)
        ensures
            selections_bytes(r@) == self@.entries,
    {
        clone_selections(&self.selected_nodes)
    }

    /// Whether two ledgers remember the same selections.
    pub fn same_as(&self, other: &Self) -> (r: bool)
        ensures
            r == (self@ == other@),
    {
        if self.revision != other.revision || self.selected_nodes.len()
            != other.selected_nodes.len() {
            proof {
                if self@ == other@ {
                    assert(self@.entries.len() == other@.entries.len());
                }
            }
            return false;
        }
        let ghost a = self@.entries;
        let ghost b = other@.entries;
        let mut i: usize = 0;
        while i < self.selected_nodes.len()
            invariant
                i <= self.selected_nodes@.len(),
                a == self@.entries,
                b == other@.entries,
                a.len() == b.len(),
                a.len() == self.selected_nodes@.len(),
                forall|k: int| 0 <= k < i ==> #[trigger] a[k] == b[k],
            decreases self.selected_nodes@.len() - i,
        {
            if !bytes_equal(
                self.selected_nodes[i].0.as_str().as_bytes(),
                other.selected_nodes[i].0.as_str().as_bytes(),
            ) || !bytes_equal(
                self.selected_nodes[i].1.as_str().as_bytes(),
                other.selected_nodes[i].1.as_str().as_bytes(),
            ) {
                proof {
                    assert(a[i as int] != b[i as int]);
                }
                return false;
            }
            i += 1;
        }
        proof {
            assert(a =~= b);
        }
        true
    }
}

#[verifier::external_type_specification]
#[verifier::external_body]
pub struct ExEntropyError(getrandom::Error);

/// `getrandom::fill` on a 16-byte buffer: the bytes come from the system's
/// random source, or the call reports that none could be had. Nothing is claimed
/// of the bytes themselves.
#[verifier::external_body]
fn random_bytes() -> (r: Result<Vec<u8>, getrandom::Error>)
    ensures
        r matches Ok(bytes) ==> bytes@.len() == 16,
{
    let mut bytes = [0u8; 16];
    getrandom::fill(&mut bytes).map(|()| bytes.to_vec())
}

/// The lowercase hexadecimal digit for a value below 16.
pub open spec fn hex_digit_byte(value: int) -> u8 {
    if value < 10 {
        (48 + value) as u8
    } else {
        (87 + value) as u8
    }
}

/// Each byte as two lowercase hexadecimal digits, the high half first.
pub open spec fn lower_hex(bytes: Seq<u8>) -> Seq<u8>
    decreases bytes.len(),
{
    if bytes.len() == 0 {
        Seq::empty()
    } else {
        lower_hex(bytes.drop_last()).push(hex_digit_byte(bytes.last() as int / 16)).push(
            hex_digit_byte(bytes.last() as int % 16),
        )
    }
}

/// An installation identifier: 32 lowercase hexadecimal digits.
pub open spec fn valid_installation_id(id: Seq<u8>) -> bool {
    id.len() == 32 && forall|i: int| 0 <= i < id.len() ==> is_lower_hex_digit(#[trigger] id[i])
}

proof fn lemma_lower_hex_digits(bytes: Seq<u8>)
    ensures
        lower_hex(bytes).len() == 2 * bytes.len(),
        forall|i: int| 0 <= i < lower_hex(bytes).len() ==> is_lower_hex_digit(
            #[trigger] lower_hex(bytes)[i],
        ),
    decreases bytes.len(),
{
    if bytes.len() > 0 {
        lemma_lower_hex_digits(bytes.drop_last());
    }
}

fn hex_digit(value: u8) -> (c: char)
    requires
        value < 16,
    ensures
        (c as u32) < 128,
        c as u8 == hex_digit_byte(value as int),
{
    if value < 10 {
        ((48 + value) as char)
    } else {
        ((87 + value) as char)
    }
}

/// The installation identifier spelled from `bytes`.
pub fn encode_installation_id(bytes: &[u8]) -> (id: String)
    ensures
        utf8_bytes(id@) == lower_hex(bytes@),
{
    let mut id = String::new();
    proof {
        assert(utf8_bytes(id@) =~= Seq::<u8>::empty());
        assert(bytes@.subrange(0, 0) =~= Seq::<u8>::empty());
    }
    let mut i: usize = 0;
    while i < bytes.len()
        invariant
            i <= bytes@.len(),
            utf8_bytes(id@) == lower_hex(bytes@.subrange(0, i as int)),
        decreases bytes@.len() - i,
    {
        let byte = bytes[i];
        let high = hex_digit(byte / 16);
        let low = hex_digit(byte % 16);
        append_ascii_char(&mut id, high);
        append_ascii_char(&mut id, low);
        proof {
            let next = bytes@.subrange(0, i as int + 1);
            assert(next.drop_last() =~= bytes@.subrange(0, i as int));
            assert(next.last() == byte);
        }
        i += 1;
    }
    proof {
        assert(bytes@.subrange(0, bytes@.len() as int) =~= bytes@);
    }
    id
}

/// A fresh installation identifier from the system's random source.
fn new_installation_id() -> (r: Result<String, PersistenceError>)
    ensures
        r matches Ok(id) ==> valid_installation_id(utf8_bytes(id@)),
        r matches Err(e) ==> e == PersistenceError::EntropyUnavailable,
{
    match random_bytes() {
        Ok(bytes) => {
            let id = encode_installation_id(bytes.as_slice());
            proof {
                lemma_lower_hex_digits(bytes@);
            }
            Ok(id)
        },
        Err(_) => Err(PersistenceError::EntropyUnavailable),
    }
}

/// Whether `id` is a valid installation identifier.
pub fn is_valid_installation_id(id: &str) -> (r: bool)
    ensures
        r == valid_installation_id(utf8_bytes(id@)),
{
    let bytes = id.as_bytes();
    if bytes.len() != 32 {
        return false;
    }
    let mut i: usize = 0;
    while i < bytes.len()
        invariant
            i <= bytes@.len(),
            bytes@ == utf8_bytes(id@),
            bytes@.len() == 32,
            forall|j: int| 0 <= j < i ==> is_lower_hex_digit(#[trigger] bytes@[j]),
        decreases bytes@.len() - i,
    {
        let b = bytes[i];
        if !((48 <= b && b <= 57) || (97 <= b && b <= 102)) {
            assert(!is_lower_hex_digit(bytes@[i as int]));
            return false;
        }
        i += 1;
    }
    true
}

/// The settings as plain values.
pub struct AppSettingsView {
    pub schema_version: u16,
    pub locale: LocalePreference,
    pub launch_on_startup: bool,
    pub connection_mode: ConnectionMode,
    pub routing_mode: RoutingMode,
    pub theme: ThemePreference,
    pub reduced_motion: ReducedMotionPreference,
    pub data_plane: RevisionLedgerState,
    pub node_selection: NodeSelectionState,
    pub node_selection_mode: NodeSelectionMode,
    pub installation_id: Seq<u8>,
}

/// The user's application settings.
#[derive(Debug, Clone)]
pub struct AppSettings {
    schema_version: u16,
    locale: LocalePreference,
    launch_on_startup: bool,
    connection_mode: ConnectionMode,
    routing_mode: RoutingMode,
    theme: ThemePreference,
    reduced_motion: ReducedMotionPreference,
    data_plane: DataPlaneRevisionLedger,
    node_selection: DataPlaneNodeSelectionLedger,
    node_selection_mode: NodeSelectionMode,
    installation_id: String,
}

impl View for AppSettings {
    type V = AppSettingsView;

    closed spec fn view(&self) -> AppSettingsView {
        AppSettingsView {
            schema_version: self.schema_version,
            locale: self.locale,
            launch_on_startup: self.launch_on_startup,
            connection_mode: self.connection_mode,
            routing_mode: self.routing_mode,
            theme: self.theme,
            reduced_motion: self.reduced_motion,
            data_plane: self.data_plane@,
            node_selection: self.node_selection@,
            node_selection_mode: self.node_selection_mode,
            installation_id: utf8_bytes(self.installation_id@),
        }
    }
}

impl AppSettings {
    /// The settings of a first start: every preference at its default, no
    /// revision and no selection remembered, and a fresh installation identifier.
    pub fn new() -> (r: Result<Self, PersistenceError>)
        ensures
            r matches Ok(settings) ==> {
                &&& settings@.schema_version == SETTINGS_SCHEMA_VERSION
                &&& settings@.locale == LocalePreference::System
                &&& !settings@.launch_on_startup
                &&& settings@.connection_mode == ConnectionMode::SystemProxy
                &&& settings@.routing_mode == RoutingMode::Smart
                &&& settings@.theme == ThemePreference::System
                &&& settings@.reduced_motion == ReducedMotionPreference::System
                &&& settings@.data_plane == (RevisionLedgerState {
                    current: None,
                    previous: None,
                    candidate: None,
                })
                &&& settings@.node_selection.revision is None
                &&& settings@.node_selection.entries.len() == 0
                &&& settings@.node_selection_mode == NodeSelectionMode::Auto
                &&& valid_installation_id(settings@.installation_id)
            },
            r matches Err(e) ==> e == PersistenceError::EntropyUnavailable,
    {
        let installation_id = new_installation_id()?;
        Ok(
            AppSettings {
                schema_version: SETTINGS_SCHEMA_VERSION,
                locale: LocalePreference::System,
                launch_on_startup: false,
                connection_mode: ConnectionMode::SystemProxy,
                routing_mode: RoutingMode::Smart,
                theme: ThemePreference::System,
                reduced_motion: ReducedMotionPreference::System,
                data_plane: DataPlaneRevisionLedger::default(),
                node_selection: DataPlaneNodeSelectionLedger::default(),
                node_selection_mode: NodeSelectionMode::Auto,
                installation_id,
            },
        )
    }

    /// Settings read back from storage; refused unless the schema version is
    /// the current one and the installation identifier is valid.
    pub fn from_stored(
        schema_version: u16,
        locale: LocalePreference,
        launch_on_startup: bool,
        connection_mode: ConnectionMode,
        routing_mode: RoutingMode,
        theme: ThemePreference,
        reduced_motion: ReducedMotionPreference,
        data_plane: DataPlaneRevisionLedger,
        node_selection: DataPlaneNodeSelectionLedger,
        node_selection_mode: NodeSelectionMode,
        installation_id: String,
    ) -> (r: Result<Self, PersistenceError>)
        ensures
            r is Ok <==> schema_version == SETTINGS_SCHEMA_VERSION && valid_installation_id(
                utf8_bytes(installation_id@),
            ),
            r matches Ok(settings) ==> settings@ == (AppSettingsView {
                schema_version,
                locale,
                launch_on_startup,
                connection_mode,
                routing_mode,
                theme,
                reduced_motion,
                data_plane: data_plane@,
                node_selection: node_selection@,
                node_selection_mode,
                installation_id: utf8_bytes(installation_id@),
            }),
            r matches Err(e) ==> e == PersistenceError::InvalidSettings,
    {
        if schema_version != SETTINGS_SCHEMA_VERSION || !is_valid_installation_id(
            installation_id.as_str(),
        ) {
            return Err(PersistenceError::InvalidSettings);
        }
        Ok(
            AppSettings {
                schema_version,
                locale,
                launch_on_startup,
                connection_mode,
                routing_mode,
                theme,
                reduced_motion,
                data_plane,
                node_selection,
                node_selection_mode,
                installation_id,
            },
        )
    }

    /// Every setting holds the values a stored document may hold.
    pub open spec fn valid(self) -> bool {
        self@.schema_version == SETTINGS_SCHEMA_VERSION && valid_installation_id(
            self@.installation_id,
        )
    }

    pub fn schema_version(&self) -> (v: u16)
        ensures
            v == self@.schema_version,
    {
        self.schema_version
    }

    pub fn locale(&self) -> (v: LocalePreference)
        ensures
            v == self@.locale,
    {
        self.locale
    }

    pub fn launch_on_startup(&self) -> (v: bool)
        ensures
            v == self@.launch_on_startup,
    {
        self.launch_on_startup
    }

    pub fn connection_mode(&self) -> (v: ConnectionMode)
        ensures
            v == self@.connection_mode,
    {
        self.connection_mode
    }

    pub fn routing_mode(&self) -> (v: RoutingMode)
        ensures
            v == self@.routing_mode,
    {
        self.routing_mode
    }

    pub fn theme(&self) -> (v: ThemePreference)
        ensures
            v == self@.theme,
    {
        self.theme
    }

    pub fn reduced_motion(&self) -> (v: ReducedMotionPreference)
        ensures
            v == self@.reduced_motion,
    {
        self.reduced_motion
    }

    pub fn data_plane(&self) -> (v: &DataPlaneRevisionLedger)
        ensures
            v@ == self@.data_plane,
    {
        &self.data_plane
    }

    pub fn node_selection(&self) -> (v: &DataPlaneNodeSelectionLedger)
        ensures
            v@ == self@.node_selection,
    {
        &self.node_selection
    }

    pub fn node_selection_mode(&self) -> (v: NodeSelectionMode)
        ensures
            v == self@.node_selection_mode,
    {
        self.node_selection_mode
    }

    pub fn installation_id(&self) -> (v: &str)
        ensures
            utf8_bytes(v@) == self@.installation_id,
    {
        self.installation_id.as_str()
    }

    pub fn set_locale(&mut self, locale: LocalePreference)
        ensures
            final(self)@ == (AppSettingsView { locale, ..old(self)@ }),
    {
        self.locale = locale;
    }

    pub fn set_launch_on_startup(&mut self, enabled: bool)
        ensures
            final(self)@ == (AppSettingsView { launch_on_startup: enabled, ..old(self)@ }),
    {
        self.launch_on_startup = enabled;
    }

    pub fn set_connection_mode(&mut self, mode: ConnectionMode)
        ensures
            final(self)@ == (AppSettingsView { connection_mode: mode, ..old(self)@ }),
    {
        self.connection_mode = mode;
    }

    pub fn set_routing_mode(&mut self, mode: RoutingMode)
        ensures
            final(self)@ == (AppSettingsView { routing_mode: mode, ..old(self)@ }),
    {
        self.routing_mode = mode;
    }

    pub fn set_theme(&mut self, theme: ThemePreference)
        ensures
            final(self)@ == (AppSettingsView { theme, ..old(self)@ }),
    {
        self.theme = theme;
    }

    pub fn set_reduced_motion(&mut self, reduced_motion: ReducedMotionPreference)
        ensures
            final(self)@ == (AppSettingsView { reduced_motion, ..old(self)@ }),
    {
        self.reduced_motion = reduced_motion;
    }

    pub fn set_node_selection_mode(&mut self, mode: NodeSelectionMode)
        ensures
            final(self)@ == (AppSettingsView { node_selection_mode: mode, ..old(self)@ }),
    {
        self.node_selection_mode = mode;
    }

    /// Replaces the remembered node selections.
    pub fn set_node_selection(&mut self, ledger: DataPlaneNodeSelectionLedger)
        ensures
            final(self)@ == (AppSettingsView { node_selection: ledger@, ..old(self)@ }),
    {
        self.node_selection = ledger;
    }

    /// Replaces the revision ledger.
    pub fn set_data_plane(&mut self, ledger: DataPlaneRevisionLedger)
        ensures
            final(self)@ == (AppSettingsView { data_plane: ledger@, ..old(self)@ }),
    {
        self.data_plane = ledger;
    }
}

/// Settings as an older schema stored them; a field that the schema did not
/// have is `None`.
pub struct LegacySettings {
    pub schema_version: u16,
    pub locale: LocalePreference,
    pub launch_on_startup: bool,
    pub connection_mode: Option<ConnectionMode>,
    pub routing_mode: Option<RoutingMode>,
    pub theme: Option<ThemePreference>,
    pub reduced_motion: Option<ReducedMotionPreference>,
    pub data_plane: Option<DataPlaneRevisionLedger>,
}

/// Which fields schema `version` stored, for versions 1 to 5: the theme, motion
/// and revision ledger came with version 2, the connection mode with 4 and the
/// routing mode with 5.
pub open spec fn legacy_shape_matches(legacy: LegacySettings, version: u64) -> bool {
    &&& legacy.schema_version == version
    &&& (legacy.theme is Some <==> version >= 2)
    &&& (legacy.reduced_motion is Some <==> version >= 2)
    &&& (legacy.data_plane is Some <==> version >= 2)
    &&& (legacy.connection_mode is Some <==> version >= 4)
    &&& (legacy.routing_mode is Some <==> version >= 5)
}

/// Settings read from a stored document, with the schema they were migrated
/// from where that was an older one.
pub struct ParsedSettings {
    pub settings: AppSettings,
    pub migrated_from_schema: Option<u64>,
}

/// How a stored schema version is read: `Ok(None)` for the current schema,
/// `Ok(Some(v))` for an older schema `v` that is migrated, an error otherwise.
pub fn classify_schema_version(found: u64) -> (r: Result<Option<u16>, PersistenceError>)
    ensures
        found == SETTINGS_SCHEMA_VERSION ==> r == Ok::<Option<u16>, PersistenceError>(None),
        1 <= found < SETTINGS_SCHEMA_VERSION ==> r == Ok::<Option<u16>, PersistenceError>(
            Some(found as u16),
        ),
        found > SETTINGS_SCHEMA_VERSION ==> r == Err::<Option<u16>, PersistenceError>(
            PersistenceError::UnsupportedSchemaVersion {
                found,
                supported: SETTINGS_SCHEMA_VERSION,
            },
        ),
        found == 0 ==> r == Err::<Option<u16>, PersistenceError>(PersistenceError::CorruptData),
{
    if found == 6 {
        Ok(None)
    } else if 1 <= found && found < 6 {
        Ok(Some(found as u16))
    } else if found > 6 {
        Err(PersistenceError::UnsupportedSchemaVersion { found, supported: SETTINGS_SCHEMA_VERSION })
    } else {
        Err(PersistenceError::CorruptData)
    }
}

/// Migrates settings stored under the older schema `found` to the current one:
/// the stored preferences are kept, those the schema lacked take their
/// defaults, the node selections are forgotten, automatic node selection is
/// chosen, and a fresh installation identifier is drawn.
pub fn migrate_legacy_settings(legacy: LegacySettings, found: u64) -> (r: Result<
    ParsedSettings,
    PersistenceError,
>)
    ensures
        !(1 <= found < SETTINGS_SCHEMA_VERSION && legacy_shape_matches(legacy, found)) ==> r
            == Err::<ParsedSettings, PersistenceError>(PersistenceError::CorruptData),
        r matches Ok(parsed) ==> {
            &&& 1 <= found < SETTINGS_SCHEMA_VERSION
            &&& legacy_shape_matches(legacy, found)
            &&& parsed.migrated_from_schema == Some(found)
            &&& parsed.settings.valid()
            &&& parsed.settings@.locale == legacy.locale
            &&& parsed.settings@.launch_on_startup == legacy.launch_on_startup
            &&& parsed.settings@.connection_mode == (match legacy.connection_mode {
                Some(mode) => mode,
                None => ConnectionMode::SystemProxy,
            })
            &&& parsed.settings@.routing_mode == (match legacy.routing_mode {
                Some(mode) => mode,
                None => RoutingMode::Smart,
            })
            &&& parsed.settings@.theme == (match legacy.theme {
                Some(theme) => theme,
                None => ThemePreference::System,
            })
            &&& parsed.settings@.reduced_motion == (match legacy.reduced_motion {
                Some(motion) => motion,
                None => ReducedMotionPreference::System,
            })
            &&& parsed.settings@.data_plane == (match legacy.data_plane {
                Some(ledger) => ledger@,
                None => RevisionLedgerState { current: None, previous: None, candidate: None },
            })
            &&& parsed.settings@.node_selection.revision is None
            &&& parsed.settings@.node_selection.entries.len() == 0
            &&& parsed.settings@.node_selection_mode == NodeSelectionMode::Auto
        },
        r matches Err(e) ==> e == PersistenceError::CorruptData || e
            == PersistenceError::EntropyUnavailable,
        1 <= found < SETTINGS_SCHEMA_VERSION && legacy_shape_matches(legacy, found) ==> (r is Err
            ==> r == Err::<ParsedSettings, PersistenceError>(
            PersistenceError::EntropyUnavailable,
        )),
{
    if !(1 <= found && found < 6) || legacy.schema_version as u64 != found {
        return Err(PersistenceError::CorruptData);
    }
    let has_v2_fields = found >= 2;
    if legacy.theme.is_some() != has_v2_fields || legacy.reduced_motion.is_some()
        != has_v2_fields || legacy.data_plane.is_some() != has_v2_fields
        || legacy.connection_mode.is_some() != (found >= 4) || legacy.routing_mode.is_some() != (
    found >= 5) {
        return Err(PersistenceError::CorruptData);
    }
    let installation_id = new_installation_id()?;
    let connection_mode = match legacy.connection_mode {
        Some(mode) => mode,
        None => ConnectionMode::SystemProxy,
    };
    let routing_mode = match legacy.routing_mode {
        Some(mode) => mode,
        None => RoutingMode::Smart,
    };
    let theme = match legacy.theme {
        Some(theme) => theme,
        None => ThemePreference::System,
    };
    let reduced_motion = match legacy.reduced_motion {
        Some(motion) => motion,
        None => ReducedMotionPreference::System,
    };
    let data_plane = match legacy.data_plane {
        Some(ledger) => ledger,
        None => DataPlaneRevisionLedger::default(),
    };
    let settings = AppSettings {
        schema_version: SETTINGS_SCHEMA_VERSION,
        locale: legacy.locale,
        launch_on_startup: legacy.launch_on_startup,
        connection_mode,
        routing_mode,
        theme,
        reduced_motion,
        data_plane,
        node_selection: DataPlaneNodeSelectionLedger::default(),
        node_selection_mode: NodeSelectionMode::Auto,
        installation_id,
    };
    Ok(ParsedSettings { settings, migrated_from_schema: Some(found) })
}

/// Settings as loaded: the generation file they came from or were written to,
/// the older schema they were migrated from, and the newer generation that had
/// to be passed over because it could not be read.
#[derive(Debug, Clone)]
pub struct LoadedSettings {
    settings: AppSettings,
    generation: u64,
    migrated_from_schema: Option<u64>,
    recovered_from_generation: Option<u64>,
}

impl LoadedSettings {
    pub closed spec fn spec_settings(&self) -> AppSettingsView {
        self.settings@
    }

    pub closed spec fn spec_generation(&self) -> u64 {
        self.generation
    }

    pub closed spec fn spec_migrated_from_schema(&self) -> Option<u64> {
        self.migrated_from_schema
    }

    pub closed spec fn spec_recovered_from_generation(&self) -> Option<u64> {
        self.recovered_from_generation
    }

    pub fn new(
        settings: AppSettings,
        generation: u64,
        migrated_from_schema: Option<u64>,
        recovered_from_generation: Option<u64>,
    ) -> (loaded: Self)
        ensures
            loaded.spec_settings() == settings@,
            loaded.spec_generation() == generation,
            loaded.spec_migrated_from_schema() == migrated_from_schema,
            loaded.spec_recovered_from_generation() == recovered_from_generation,
    {
        LoadedSettings { settings, generation, migrated_from_schema, recovered_from_generation }
    }

    pub fn settings(&self) -> (v: &AppSettings)
        ensures
            v@ == self.spec_settings(),
    {
        &self.settings
    }

    pub fn into_settings(self) -> (v: AppSettings)
        ensures
            v@ == self.spec_settings(),
    {
        self.settings
    }

    pub fn generation(&self) -> (v: u64)
        ensures
            v == self.spec_generation(),
    {
        self.generation
    }

    pub fn migrated_from_schema(&self) -> (v: Option<u64>)
        ensures
            v == self.spec_migrated_from_schema(),
    {
        self.migrated_from_schema
    }

    pub fn recovered_from_generation(&self) -> (v: Option<u64>)
        ensures
            v == self.spec_recovered_from_generation(),
    {
        self.recovered_from_generation
    }
}

/// Whether a settings document that was read must be written back as a new
/// generation: it was migrated, or a newer generation had to be passed over.
pub fn must_rewrite_loaded(candidate_index: usize, migrated_from_schema: Option<u64>) -> (r: bool)
    ensures
        r == (candidate_index > 0 || migrated_from_schema is Some),
{
    candidate_index > 0 || migrated_from_schema.is_some()
}

/// Whether a failure to read one generation lets loading go on to an older one.
pub fn is_recoverable_read_error(error: PersistenceError) -> (r: bool)
    ensures
        r == (error == PersistenceError::CorruptData || error
            == PersistenceError::DocumentTooLarge),
{
    match error {
        PersistenceError::CorruptData => true,
        PersistenceError::DocumentTooLarge => true,
        _ => false,
    }
}

/// Checks the length of a stored document.
pub fn check_document_size(length: u64) -> (r: Result<(), PersistenceError>)
    ensures
        r is Ok <==> length <= MAX_DOCUMENT_BYTES,
        r matches Err(e) ==> e == PersistenceError::DocumentTooLarge,
{
    if length > MAX_DOCUMENT_BYTES {
        Err(PersistenceError::DocumentTooLarge)
    } else {
        Ok(())
    }
}

/// Checks the envelope of a stored document against the generation of the file
/// it was read from.
pub fn check_stored_document(storage_version: u64, generation: u64, file_generation: u64) -> (r:
    Result<(), PersistenceError>)
    ensures
        storage_version > STORAGE_FORMAT_VERSION ==> r == Err::<(), PersistenceError>(
            PersistenceError::UnsupportedStorageVersion {
                found: storage_version,
                supported: STORAGE_FORMAT_VERSION,
            },
        ),
        storage_version < STORAGE_FORMAT_VERSION ==> r == Err::<(), PersistenceError>(
            PersistenceError::CorruptData,
        ),
        storage_version == STORAGE_FORMAT_VERSION ==> (r is Ok <==> generation
            == file_generation),
        storage_version == STORAGE_FORMAT_VERSION && generation != file_generation ==> r == Err::<
            (),
            PersistenceError,
        >(PersistenceError::CorruptData),
{
    if storage_version != 1 {
        if storage_version > 1 {
            return Err(
                PersistenceError::UnsupportedStorageVersion {
                    found: storage_version,
                    supported: STORAGE_FORMAT_VERSION,
                },
            );
        }
        return Err(PersistenceError::CorruptData);
    }
    if generation != file_generation {
        return Err(PersistenceError::CorruptData);
    }
    Ok(())
}

/// The generation to write after the newest one found on disk.
pub fn next_generation(newest: Option<u64>) -> (r: Result<u64, PersistenceError>)
    ensures
        match newest {
            None => r == Ok::<u64, PersistenceError>(1),
            Some(g) => if g < u64::MAX {
                r == Ok::<u64, PersistenceError>((g + 1) as u64)
            } else {
                r == Err::<u64, PersistenceError>(PersistenceError::GenerationOverflow)
            },
        },
{
    let newest = match newest {
        Some(g) => g,
        None => 0,
    };
    match newest.checked_add(1) {
        Some(g) => Ok(g),
        None => Err(PersistenceError::GenerationOverflow),
    }
}

/// Whether a generation file survives the pruning after `committed` was
/// written: only the new generation and the newest one that could be read stay.
pub fn is_retained_generation(generation: u64, committed: u64, previous_valid: Option<u64>) -> (r:
    bool)
    ensures
        r == (generation == committed || previous_valid == Some(generation)),
{
    generation == committed || previous_valid == Some(generation)
}

/// The value of a string of decimal digits.
pub open spec fn decimal_value(digits: Seq<u8>) -> nat
    decreases digits.len(),
{
    if digits.len() == 0 {
        0
    } else {
        decimal_value(digits.drop_last()) * 10 + (digits.last() - 48) as nat
    }
}

pub open spec fn all_digits(s: Seq<u8>) -> bool {
    forall|i: int| 0 <= i < s.len() ==> is_digit(#[trigger] s[i])
}

pub open spec fn pow10(n: nat) -> nat
    decreases n,
{
    if n == 0 {
        1
    } else {
        10 * pow10((n - 1) as nat)
    }
}

/// `settings-`
pub open spec fn generation_prefix() -> Seq<u8> {
    seq![115u8, 101u8, 116u8, 116u8, 105u8, 110u8, 103u8, 115u8, 45u8]
}

/// `.json`
pub open spec fn generation_suffix() -> Seq<u8> {
    seq![46u8, 106u8, 115u8, 111u8, 110u8]
}

/// The twenty decimal digits of a generation file's name.
pub open spec fn generation_digits(name: Seq<u8>) -> Seq<u8> {
    name.subrange(9, 29)
}

/// Whether `name` is the file name of generation `generation`: `settings-`, the
/// generation in twenty decimal digits, and `.json`.
pub open spec fn is_generation_file_name(name: Seq<u8>, generation: u64) -> bool {
    &&& name.len() == 34
    &&& has_prefix(name, generation_prefix())
    &&& has_suffix(name, generation_suffix())
    &&& all_digits(generation_digits(name))
    &&& decimal_value(generation_digits(name)) == generation
}

/// The generation that a file name names, if it names one above zero.
pub open spec fn parsed_generation(name: Seq<u8>) -> Option<u64> {
    if name.len() == 34 && has_prefix(name, generation_prefix()) && has_suffix(
        name,
        generation_suffix(),
    ) && all_digits(generation_digits(name)) && 0 < decimal_value(generation_digits(name))
        <= u64::MAX {
        Some(decimal_value(generation_digits(name)) as u64)
    } else {
        None
    }
}

proof fn lemma_decimal_prepend(d: u8, s: Seq<u8>)
    requires
        is_digit(d),
    ensures
        decimal_value(seq![d] + s) == (d - 48) as nat * pow10(s.len()) + decimal_value(s),
    decreases s.len(),
{
    let a = (d - 48) as nat;
    if s.len() == 0 {
        assert(seq![d] + s =~= seq![d]);
        assert(seq![d].drop_last() =~= Seq::<u8>::empty());
        assert(decimal_value(Seq::<u8>::empty()) == 0);
        assert(decimal_value(seq![d]) == a);
        assert(pow10(0) == 1);
        assert(a * 1 == a) by (nonlinear_arith);
    } else {
        let t = seq![d] + s;
        let sd = s.drop_last();
        assert(t.drop_last() =~= seq![d] + sd);
        assert(t.last() == s.last());
        lemma_decimal_prepend(d, sd);
        let p = pow10(sd.len());
        assert(pow10(s.len()) == 10 * p);
        let x = decimal_value(sd);
        let l = (s.last() - 48) as nat;
        assert(decimal_value(t) == decimal_value(seq![d] + sd) * 10 + l);
        assert(decimal_value(s) == x * 10 + l);
        assert((a * p + x) * 10 + l == a * (10 * p) + (x * 10 + l)) by (nonlinear_arith);
    }
}

pub(crate) proof fn lemma_decimal_grows(s: Seq<u8>, d: u8)
    requires
        is_digit(d),
    ensures
        decimal_value(s.push(d)) >= decimal_value(s),
        decimal_value(s.push(d)) == decimal_value(s) * 10 + (d - 48) as nat,
{
    assert(s.push(d).drop_last() =~= s);
}

pub(crate) proof fn lemma_decimal_prefix_bound(s: Seq<u8>, n: int)
    requires
        0 <= n <= s.len(),
        all_digits(s),
    ensures
        decimal_value(s.subrange(0, n)) <= decimal_value(s),
    decreases s.len() - n,
{
    if n < s.len() {
        lemma_decimal_prefix_bound(s, n + 1);
        assert(s.subrange(0, n + 1) =~= s.subrange(0, n).push(s[n]));
        lemma_decimal_grows(s.subrange(0, n), s[n]);
    } else {
        assert(s.subrange(0, n) =~= s);
    }
}

fn push_bytes(target: &mut Vec<u8>, bytes: &[u8])
    ensures
        final(target)@ == old(target)@ + bytes@,
{
    let mut i: usize = 0;
    while i < bytes.len()
        invariant
            i <= bytes@.len(),
            target@ == old(target)@ + bytes@.subrange(0, i as int),
        decreases bytes@.len() - i,
    {
        target.push(bytes[i]);
        proof {
            assert(bytes@.subrange(0, i as int + 1) =~= bytes@.subrange(0, i as int).push(
                bytes@[i as int],
            ));
        }
        i += 1;
    }
    proof {
        assert(bytes@.subrange(0, bytes@.len() as int) =~= bytes@);
    }
}

/// The name of the file holding generation `generation`.
pub fn file_name(generation: u64) -> (name: String)
    ensures
        is_generation_file_name(utf8_bytes(name@), generation),
{
    let mut digits: Vec<u8> = Vec::new();
    let mut count: usize = 0;
    while count < 20
        invariant
            count <= 20,
            digits@.len() == count,
        decreases 20 - count,
    {
        digits.push(48u8);
        count += 1;
    }
    let mut remaining: u64 = generation;
    let mut i: usize = 0;
    proof {
        assert(digits@.subrange(20, 20) =~= Seq::<u8>::empty());
        assert(decimal_value(Seq::<u8>::empty()) == 0);
        assert(pow10(0) == 1);
        assert(remaining as nat * 1 == remaining as nat) by (nonlinear_arith);
    }
    while i < 20
        invariant
            i <= 20,
            digits@.len() == 20,
            all_digits(digits@.subrange(20 - i, 20)),
            decimal_value(digits@.subrange(20 - i, 20)) + remaining as nat * pow10(i as nat)
                == generation as nat,
        decreases 20 - i,
    {
        let digit = (48 + remaining % 10) as u8;
        let ghost tail = digits@.subrange(20 - i, 20);
        digits.set(19 - i, digit);
        proof {
            let next = digits@.subrange(19 - i, 20);
            assert(next =~= seq![digit] + tail);
            lemma_decimal_prepend(digit, tail);
            let r = remaining as nat;
            assert(pow10((i + 1) as nat) == 10 * pow10(i as nat));
            assert(r == (r / 10) * 10 + r % 10) by (nonlinear_arith);
            assert(r * pow10(i as nat) == (r % 10) * pow10(i as nat) + (r / 10) * (10 * pow10(
                i as nat,
            ))) by (nonlinear_arith)
                requires
                    r == (r / 10) * 10 + r % 10,
            ;
        }
        remaining = remaining / 10;
        i += 1;
    }
    proof {
        reveal_with_fuel(pow10, 21);
        assert(pow10(20) == 100000000000000000000nat);
        assert(digits@.subrange(0, 20) =~= digits@);
        if remaining > 0 {
            assert(remaining as nat * pow10(20) >= pow10(20)) by (nonlinear_arith)
                requires
                    remaining > 0,
            ;
        }
    }
    let mut bytes: Vec<u8> = Vec::new();
    let prefix: [u8; 9] = [115u8, 101u8, 116u8, 116u8, 105u8, 110u8, 103u8, 115u8, 45u8];
    let suffix: [u8; 5] = [46u8, 106u8, 115u8, 111u8, 110u8];
    push_bytes(&mut bytes, &prefix);
    push_bytes(&mut bytes, digits.as_slice());
    push_bytes(&mut bytes, &suffix);
    proof {
        assert(prefix@ =~= generation_prefix());
        assert(suffix@ =~= generation_suffix());
        let n = bytes@;
        assert(n =~= generation_prefix() + digits@ + generation_suffix());
        assert(generation_digits(n) =~= digits@);
        assert(n.subrange(0, 9) =~= generation_prefix());
        assert(n.subrange(29, 34) =~= generation_suffix());
        assert forall|k: int| 0 <= k < n.len() implies (#[trigger] n[k]) < 128 by {
            if k >= 9 && k < 29 {
                assert(is_digit(digits@[k - 9]));
            }
        }
    }
    string_from_ascii(bytes)
}

/// The generation a file name names; `None` for any other file.
pub fn parse_generation(name: &str) -> (r: Option<u64>)
    ensures
        r == parsed_generation(utf8_bytes(name@)),
{
    let bytes = name.as_bytes();
    let prefix: [u8; 9] = [115u8, 101u8, 116u8, 116u8, 105u8, 110u8, 103u8, 115u8, 45u8];
    let suffix: [u8; 5] = [46u8, 106u8, 115u8, 111u8, 110u8];
    proof {
        assert(prefix@ =~= generation_prefix());
        assert(suffix@ =~= generation_suffix());
    }
    if bytes.len() != 34 || !bytes_have_prefix(bytes, &prefix) || !bytes_have_suffix(
        bytes,
        &suffix,
    ) {
        return None;
    }
    let ghost digits = generation_digits(bytes@);
    let mut value: u64 = 0;
    let mut i: usize = 9;
    proof {
        assert(bytes@.subrange(9, 9) =~= Seq::<u8>::empty());
    }
    while i < 29
        invariant
            9 <= i <= 29,
            bytes@.len() == 34,
            bytes@ == utf8_bytes(name@),
            has_prefix(bytes@, generation_prefix()),
            has_suffix(bytes@, generation_suffix()),
            digits == bytes@.subrange(9, 29),
            all_digits(bytes@.subrange(9, i as int)),
            value as nat == decimal_value(bytes@.subrange(9, i as int)),
        decreases 29 - i,
    {
        let b = bytes[i];
        if b < 48 || b > 57 {
            proof {
                assert(digits[i - 9] == b);
            }
            return None;
        }
        proof {
            assert(bytes@.subrange(9, i as int + 1) =~= bytes@.subrange(9, i as int).push(b));
            lemma_decimal_grows(bytes@.subrange(9, i as int), b);
        }
        let digit = (b - 48) as u64;
        let next = match value.checked_mul(10) {
            Some(v) => v.checked_add(digit),
            None => None,
        };
        match next {
            Some(v) => {
                value = v;
            },
            None => {
                proof {
                    assert(bytes@.subrange(9, i as int + 1) =~= digits.subrange(0, i - 8));
                    if all_digits(digits) {
                        lemma_decimal_prefix_bound(digits, i - 8);
                    }
                }
                return None;
            },
        }
        i += 1;
    }
    proof {
        assert(bytes@.subrange(9, 29) =~= digits);
    }
    if value == 0 {
        return None;
    }
    Some(value)
}

/// A generation's file name reads back as that generation.
pub proof fn law_generation_file_names_round_trip(name: Seq<u8>, generation: u64)
    requires
        is_generation_file_name(name, generation),
        generation > 0,
    ensures
        parsed_generation(name) == Some(generation),
{
}

/// Where the settings document is kept.
pub trait SettingsStorage: Send + Sync {
    fn load(&self) -> Result<LoadedSettings, PersistenceError>;

    fn save(&self, settings: &AppSettings) -> Result<u64, PersistenceError>;
}

/// Where the revision ledger is kept, updated one operation at a time.
/// What a ledger read answered, taken by the ledger's view.
pub open spec fn ledger_answer(r: Result<DataPlaneRevisionLedger, PersistenceError>) -> Result<
    RevisionLedgerState,
    PersistenceError,
> {
    match r {
        Ok(ledger) => Ok(ledger@),
        Err(e) => Err(e),
    }
}

/// Where the revision ledger is kept. Implemented by each platform, which
/// says, through the relations below, which answers its operations may give;
/// this crate relies on nothing else of an implementation.
pub trait DataPlaneRevisionStorage: Send + Sync {
    /// `answer` is one that reading the ledger may give.
    spec fn reads_ledger(&self, answer: Result<RevisionLedgerState, PersistenceError>) -> bool;

    /// `answer` is one that staging the candidate `revision` may give.
    spec fn stages(&self, revision: u64, answer: Result<PersistenceUpdateOutcome, PersistenceError>) -> bool;

    /// `answer` is one that committing the candidate `revision` may give.
    spec fn commits(&self, revision: u64, answer: Result<PersistenceUpdateOutcome, PersistenceError>) -> bool;

    /// `answer` is one that rejecting the candidate `revision` may give.
    spec fn rejects(&self, revision: u64, answer: Result<Option<ConfigurationRevision>, PersistenceError>) -> bool;

    /// `answer` is one that committing the rollback to `revision` may give.
    spec fn rolls_back(&self, revision: u64, answer: Result<PersistenceUpdateOutcome, PersistenceError>) -> bool;

    fn load_revision_ledger(&self) -> (r: Result<DataPlaneRevisionLedger, PersistenceError>)
        ensures
            self.reads_ledger(ledger_answer(r)),
    ;

    fn stage_revision_candidate(&self, revision: ConfigurationRevision) -> (r: Result<
        PersistenceUpdateOutcome,
        PersistenceError,
    >)
        ensures
            self.stages(revision.value(), r),
    ;

    fn commit_revision_candidate(&self, revision: ConfigurationRevision) -> (r: Result<
        PersistenceUpdateOutcome,
        PersistenceError,
    >)
        ensures
            self.commits(revision.value(), r),
    ;

    fn reject_revision_candidate(&self, revision: ConfigurationRevision) -> (r: Result<
        Option<ConfigurationRevision>,
        PersistenceError,
    >)
        ensures
            self.rejects(revision.value(), r),
    ;

    fn commit_revision_rollback(&self, revision: ConfigurationRevision) -> (r: Result<
        PersistenceUpdateOutcome,
        PersistenceError,
    >)
        ensures
            self.rolls_back(revision.value(), r),
    ;
}

/// What a selection-ledger read answered, taken by the ledger's view.
pub open spec fn selection_answer(r: Result<DataPlaneNodeSelectionLedger, PersistenceError>) -> Result<
    NodeSelectionState,
    PersistenceError,
> {
    match r {
        Ok(ledger) => Ok(ledger@),
        Err(e) => Err(e),
    }
}

/// Where the remembered node selections are kept. Implemented by each
/// platform, which says, through the relations below, which answers its
/// operations may give; this crate relies on nothing else of an
/// implementation.
pub trait DataPlaneNodeSelectionStorage: Send + Sync {
    /// `answer` is one that reading the remembered selections may give.
    spec fn reads_selections(&self, answer: Result<NodeSelectionState, PersistenceError>) -> bool;

    /// `answer` is one that replacing the remembered selections with `ledger`
    /// may give.
    spec fn replaces(
        &self,
        ledger: NodeSelectionState,
        answer: Result<PersistenceUpdateOutcome, PersistenceError>,
    ) -> bool;

    fn load_node_selections(&self) -> (r: Result<DataPlaneNodeSelectionLedger, PersistenceError>)
        ensures
            self.reads_selections(selection_answer(r)),
    ;

    fn replace_node_selections(&self, ledger: &DataPlaneNodeSelectionLedger) -> (r: Result<
        PersistenceUpdateOutcome,
        PersistenceError,
    >)
        ensures
            self.replaces(ledger@, r),
    ;
}

} // verus!
