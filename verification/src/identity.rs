//! Opaque identities, digests, names and times.

use vstd::prelude::*;

use crate::sequence::{
    distinct, key_le, lemma_distinct, lemma_stable_sort, sort_stable, stable_sort, views, Keyed,
    Valued,
};
use crate::text::{
    be_number, be_number_128, byte_hex, hex, hex_number, hex_text, is_lower_hex,
    lemma_be_number_bytes, lemma_byte_hex, lemma_hex_number_text, lemma_hex_text_length,
    lemma_hex_text_number, lemma_pow16_32, lemma_pow256_values, lower_hex, parse_hex_128, pow16,
};

verus! {

/// A value that its owner does not accept.
#[derive(Clone, Copy, Debug, PartialEq, Eq, Structural)]
pub enum InterfaceError {
    InvalidIdentity,
    InvalidName,
    InvalidTimestamps,
    InvalidService,
    InvalidOperation,
    InvalidCredential,
}

// ---------------------------------------------------------------------------
// Identities
// ---------------------------------------------------------------------------

/// Marks what an identity or a name belongs to.
pub trait Kind: Copy {
    /// Returns the marker.
    fn kind() -> Self;

    /// There is one marker of each kind.
    proof fn is_unique(left: Self, right: Self)
        ensures
            left == right,
    ;
}

/// One opaque identity of one hundred twenty-eight bits.
#[derive(Clone, Copy, Debug, PartialEq, Eq, Structural)]
pub struct Id<K> {
    pub value: u128,
    pub kind: K,
}

impl<K> View for Id<K> {
    type V = Id<K>;

    open spec fn view(&self) -> Id<K> {
        *self
    }
}

impl<K> Id<K> {
    /// The thirty-two lowercase hexadecimal characters of the identity.
    pub open spec fn text(self) -> Seq<char> {
        hex_text(self.value as nat, 32)
    }
}

/// The identity that one text spells.
pub open spec fn id_of<K>(text: Seq<char>) -> Id<K> {
    Id { value: hex_number(text) as u128, kind: arbitrary() }
}

/// The identities that a list of texts spells.
pub open spec fn ids_of<K>(texts: Seq<Seq<char>>) -> Seq<Id<K>> {
    Seq::new(texts.len(), |i: int| id_of::<K>(texts[i]))
}

/// Every text of one list spells an identity.
pub open spec fn all_identities(texts: Seq<Seq<char>>) -> bool {
    forall|i: int| 0 <= i < texts.len() ==> lower_hex(#[trigger] texts[i], 32)
}

/// The texts of one list of identities.
pub open spec fn id_texts<K>(ids: Seq<Id<K>>) -> Seq<Seq<char>> {
    Seq::new(ids.len(), |i: int| ids[i].text())
}

impl<K: Kind> Id<K> {
    /// Reads one identity from exactly thirty-two lowercase hexadecimal characters; that form is
    /// this library's own choice.
    pub fn parse(text: &str) -> (result: Result<Id<K>, InterfaceError>)
        ensures
            result is Ok <==> lower_hex(text@, 32),
            result matches Ok(id) ==> id == id_of::<K>(text@) && id.text() == text@,
            result matches Err(error) ==> error == InterfaceError::InvalidIdentity,
    {
        match parse_hex_128(text) {
            Some(value) => {
                let id = Id { value, kind: K::kind() };
                proof {
                    lemma_hex_number_text(text@);
                    K::is_unique(id.kind, id_of::<K>(text@).kind);
                }
                Ok(id)
            },
            None => Err(InterfaceError::InvalidIdentity),
        }
    }

    /// Returns the identity that sixteen bytes spell.
    pub fn from_bytes(bytes: &[u8], from: usize) -> (id: Id<K>)
        requires
            from + 16 <= bytes@.len(),
        ensures
            id.value as nat == be_number(bytes@.subrange(from as int, from + 16)),
            id.text() == byte_hex(bytes@.subrange(from as int, from + 16)),
    {
        proof {
            lemma_byte_hex(bytes@.subrange(from as int, from + 16));
        }
        Id { value: be_number_128(bytes, from), kind: K::kind() }
    }

    /// Returns the canonical text of the identity.
    pub fn to_text(&self) -> (text: String)
        ensures
            text@ == self.text(),
    {
        hex(self.value, 32)
    }
}

impl<K: Kind> Valued for Id<K> {
    fn copy(&self) -> (copy: Self) {
        *self
    }

    fn same(&self, other: &Self) -> (same: bool) {
        proof {
            K::is_unique(self.kind, other.kind);
        }
        self.value == other.value
    }
}

/// A sequence of identities is its own view.
pub proof fn lemma_views_of_ids<K>(items: Seq<Id<K>>)
    ensures
        views(items) == items,
{
    assert(views(items) =~= items);
}

impl<K: Kind> Keyed for Id<K> {
    open spec fn key(model: Id<K>) -> (int, int) {
        (0, model.value as int)
    }

    fn key_at_most(&self, other: &Self) -> (at_most: bool) {
        self.value <= other.value
    }
}

/// Reading an identity's text gives the identity back.
pub proof fn law_identity_text<K: Kind>(id: Id<K>)
    ensures
        lower_hex(id.text(), 32),
        id_of::<K>(id.text()) == id,
{
    lemma_pow16_32();
    lemma_hex_text_number(id.value as nat, 32);
    K::is_unique(id.kind, id_of::<K>(id.text()).kind);
}

/// Reading the texts of a list of identities gives the list back.
pub proof fn law_identity_texts<K: Kind>(ids: Seq<Id<K>>)
    ensures
        all_identities(id_texts(ids)),
        ids_of::<K>(id_texts(ids)) == ids,
{
    assert forall|i: int| 0 <= i < ids.len() implies lower_hex(#[trigger] id_texts(ids)[i], 32)
        && id_of::<K>(id_texts(ids)[i]) == ids[i] by {
        law_identity_text(ids[i]);
    }
    assert(ids_of::<K>(id_texts(ids)) =~= ids);
}

/// Reads every identity of a list of texts.
pub fn parse_ids<K: Kind>(texts: &Vec<String>) -> (ids: Option<Vec<Id<K>>>)
    ensures
        ids is Some <==> all_identities(views(texts@)),
        ids matches Some(values) ==> values@ == ids_of::<K>(views(texts@)),
{
    let mut ids: Vec<Id<K>> = Vec::new();
    let mut i: usize = 0;
    while i < texts.len()
        invariant
            i <= texts@.len(),
            ids@.len() == i,
            forall|k: int|
                0 <= k < i ==> lower_hex(#[trigger] views(texts@)[k], 32) && ids@[k] == id_of::<K>(
                    views(texts@)[k],
                ),
        decreases texts@.len() - i,
    {
        match Id::<K>::parse(texts[i].as_str()) {
            Ok(id) => {
                ids.push(id);
            },
            Err(_) => {
                assert(!lower_hex(views(texts@)[i as int], 32));
                return None;
            },
        }
        i += 1;
    }
    assert(ids@ =~= ids_of::<K>(views(texts@)));
    Some(ids)
}

/// Returns the text of every identity of a list.
pub fn texts_of_ids<K: Kind>(ids: &Vec<Id<K>>) -> (texts: Vec<String>)
    ensures
        views(texts@) == id_texts(ids@),
{
    let mut texts: Vec<String> = Vec::new();
    let mut i: usize = 0;
    while i < ids.len()
        invariant
            i <= ids@.len(),
            texts@.len() == i,
            forall|k: int| 0 <= k < i ==> (#[trigger] texts@[k])@ == ids@[k].text(),
        decreases ids@.len() - i,
    {
        texts.push(ids[i].to_text());
        i += 1;
    }
    assert(views(texts@) =~= id_texts(ids@));
    texts
}

/// Two identities with the same text are the same identity.
pub proof fn law_identity_text_injective<K: Kind>(left: Id<K>, right: Id<K>)
    requires
        left.text() == right.text(),
    ensures
        left == right,
{
    law_identity_text(left);
    law_identity_text(right);
    K::is_unique(left.kind, right.kind);
}

/// Identities are ordered as their texts are: the first character that differs decides.
pub proof fn law_identity_order<K: Kind>(left: Id<K>, right: Id<K>, at: int)
    requires
        0 <= at < 32,
        forall|k: int| 0 <= k < at ==> left.text()[k] == right.text()[k],
        left.text()[at] < right.text()[at],
    ensures
        left.value < right.value,
{
    lemma_pow16_32();
    lemma_hex_order(left.value as nat, right.value as nat, 32, at);
}

proof fn lemma_hex_order(left: nat, right: nat, digits: nat, at: int)
    requires
        0 <= at < digits,
        left < pow16(digits),
        right < pow16(digits),
        forall|k: int| 0 <= k < at ==> hex_text(left, digits)[k] == hex_text(right, digits)[k],
        hex_text(left, digits)[at] < hex_text(right, digits)[at],
    ensures
        left < right,
    decreases digits,
{
    let shorter = (digits - 1) as nat;
    lemma_hex_text_length(left / 16, shorter);
    lemma_hex_text_length(right / 16, shorter);
    let l = hex_text(left / 16, shorter);
    let r = hex_text(right / 16, shorter);
    assert(hex_text(left, digits) == l.push(crate::text::hex_char(left % 16)));
    assert(hex_text(right, digits) == r.push(crate::text::hex_char(right % 16)));
    if at == shorter {
        assert(l =~= r) by {
            assert forall|k: int| 0 <= k < l.len() implies l[k] == r[k] by {
                assert(hex_text(left, digits)[k] == hex_text(right, digits)[k]);
            }
        }
        lemma_hex_text_number(left / 16, shorter);
        lemma_hex_text_number(right / 16, shorter);
        assert(left / 16 == right / 16);
    } else {
        assert forall|k: int| 0 <= k < at implies l[k] == r[k] by {
            assert(hex_text(left, digits)[k] == hex_text(right, digits)[k]);
        }
        lemma_hex_order(left / 16, right / 16, shorter, at);
    }
}

/// Returns whether one identity occurs in a list.
pub fn contains_id<K: Kind>(items: &Vec<Id<K>>, id: &Id<K>) -> (found: bool)
    ensures
        found == items@.contains(*id),
{
    let mut i: usize = 0;
    while i < items.len()
        invariant
            i <= items@.len(),
            forall|k: int| 0 <= k < i ==> items@[k] != *id,
        decreases items@.len() - i,
    {
        if items[i].same(id) {
            assert(items@[i as int] == *id);
            return true;
        }
        i += 1;
    }
    false
}

/// Returns whether two lists hold the same identities in the same order.
pub fn same_ids<K: Kind>(left: &Vec<Id<K>>, right: &Vec<Id<K>>) -> (same: bool)
    ensures
        same == (left@ == right@),
{
    if left.len() != right.len() {
        return false;
    }
    let mut i: usize = 0;
    while i < left.len()
        invariant
            i <= left@.len(),
            left@.len() == right@.len(),
            forall|k: int| 0 <= k < i ==> left@[k] == right@[k],
        decreases left@.len() - i,
    {
        if !left[i].same(&right[i]) {
            return false;
        }
        i += 1;
    }
    assert(left@ =~= right@);
    true
}

/// Returns a copy of one list of identities.
pub fn clone_ids<K: Kind>(items: &Vec<Id<K>>) -> (copy: Vec<Id<K>>)
    ensures
        copy@ == items@,
{
    let mut copy: Vec<Id<K>> = Vec::new();
    let mut i: usize = 0;
    while i < items.len()
        invariant
            i <= items@.len(),
            copy@ == items@.take(i as int),
        decreases items@.len() - i,
    {
        copy.push(items[i]);
        proof {
            assert(items@.take(i + 1) =~= items@.take(i as int).push(items@[i as int]));
        }
        i += 1;
    }
    assert(items@.take(items@.len() as int) =~= items@);
    copy
}

/// Returns each identity of a list once, where it occurs first.
pub fn unique_ids<K: Kind>(items: &Vec<Id<K>>) -> (unique: Vec<Id<K>>)
    ensures
        unique@ == distinct(items@),
{
    let mut unique: Vec<Id<K>> = Vec::new();
    let mut i: usize = 0;
    proof {
        assert(distinct(items@.take(0)) =~= unique@);
    }
    while i < items.len()
        invariant
            i <= items@.len(),
            unique@ == distinct(items@.take(i as int)),
        decreases items@.len() - i,
    {
        proof {
            lemma_distinct(items@.take(i as int));
            assert(items@.take(i + 1).drop_last() =~= items@.take(i as int));
            assert(items@.take(i + 1).last() == items@[i as int]);
            assert(unique@.contains(items@[i as int]) <==> items@.take(i as int).contains(
                items@[i as int],
            ));
        }
        if !contains_id(&unique, &items[i]) {
            unique.push(items[i]);
        }
        i += 1;
    }
    assert(items@.take(items@.len() as int) =~= items@);
    unique
}

/// Returns whether no identity of a list occurs twice.
pub fn distinct_ids<K: Kind>(items: &Vec<Id<K>>) -> (distinct: bool)
    ensures
        distinct == items@.no_duplicates(),
{
    let mut i: usize = 0;
    while i < items.len()
        invariant
            i <= items@.len(),
            forall|k: int, m: int|
                #![trigger items@[k], items@[m]]
                0 <= k < i && 0 <= m < i && k != m ==> items@[k] != items@[m],
        decreases items@.len() - i,
    {
        let mut j: usize = 0;
        while j < i
            invariant
                j <= i < items@.len(),
                forall|k: int| 0 <= k < j ==> items@[k] != items@[i as int],
            decreases i - j,
        {
            if items[j].same(&items[i]) {
                assert(items@[j as int] == items@[i as int]);
                return false;
            }
            j += 1;
        }
        i += 1;
    }
    true
}

/// Returns whether a list of identities strictly increases.
pub fn increasing_ids<K: Kind>(items: &Vec<Id<K>>) -> (increasing: bool)
    ensures
        increasing == strictly_increasing(items@),
{
    let mut i: usize = 1;
    while i < items.len()
        invariant
            1 <= i,
            i <= items@.len() || items@.len() == 0,
            forall|k: int, m: int|
                #![trigger items@[k], items@[m]]
                0 <= k < m < i && m < items@.len() ==> items@[k].value < items@[m].value,
        decreases items@.len() - i,
    {
        if items[i - 1].value >= items[i].value {
            assert(!(items@[i - 1].value < items@[i as int].value));
            return false;
        }
        assert forall|k: int, m: int|
            #![trigger items@[k], items@[m]]
            0 <= k < m < i + 1 && m < items@.len() implies items@[k].value < items@[m].value by {
            if m == i && k < i - 1 {
                assert(items@[k].value < items@[i - 1].value);
            }
        }
        i += 1;
    }
    true
}

/// One sequence of identities in the order of their texts.
pub open spec fn sorted_ids<K: Kind>(items: Seq<Id<K>>) -> Seq<Id<K>> {
    stable_sort(items, |id: Id<K>| Id::<K>::key(id))
}

/// Orders identities as their texts are ordered.
pub fn sort_ids<K: Kind>(items: Vec<Id<K>>) -> (sorted: Vec<Id<K>>)
    ensures
        sorted@ == sorted_ids(items@),
{
    proof {
        lemma_views_of_ids(items@);
    }
    let sorted = sort_stable(items);
    proof {
        lemma_views_of_ids(sorted@);
    }
    sorted
}

/// Ordering distinct identities makes them strictly increase.
pub proof fn law_sorted_ids<K: Kind>(items: Seq<Id<K>>)
    ensures
        sorted_ids(items).to_multiset() == items.to_multiset(),
        sorted_ids(items).len() == items.len(),
        items.no_duplicates() ==> strictly_increasing(sorted_ids(items)),
{
    broadcast use vstd::seq_lib::group_to_multiset_ensures;

    let key = |id: Id<K>| Id::<K>::key(id);
    lemma_stable_sort(items, key);
    let sorted = sorted_ids(items);
    if items.no_duplicates() {
        items.lemma_multiset_has_no_duplicates();
        sorted.lemma_multiset_has_no_duplicates_conv();
        assert forall|i: int, j: int|
            #![trigger sorted[i], sorted[j]]
            0 <= i < j < sorted.len() implies sorted[i].value < sorted[j].value by {
            assert(key_le(key(sorted[i]), key(sorted[j])));
            K::is_unique(sorted[i].kind, sorted[j].kind);
            assert(sorted[i] != sorted[j]);
        }
    }
}

/// Identities strictly increase along the sequence.
pub open spec fn strictly_increasing<K>(items: Seq<Id<K>>) -> bool {
    forall|i: int, j: int|
        #![trigger items[i], items[j]]
        0 <= i < j < items.len() ==> items[i].value < items[j].value
}

#[derive(Clone, Copy, Debug, PartialEq, Eq, Structural)]
pub struct NodeKind {}

#[derive(Clone, Copy, Debug, PartialEq, Eq, Structural)]
pub struct MachineKind {}

#[derive(Clone, Copy, Debug, PartialEq, Eq, Structural)]
pub struct InstallationKind {}

#[derive(Clone, Copy, Debug, PartialEq, Eq, Structural)]
pub struct OperationMarker {}

#[derive(Clone, Copy, Debug, PartialEq, Eq, Structural)]
pub struct ModelServiceKind {}

#[derive(Clone, Copy, Debug, PartialEq, Eq, Structural)]
pub struct PlacementGroupKind {}

#[derive(Clone, Copy, Debug, PartialEq, Eq, Structural)]
pub struct RuntimeInstallationKind {}

#[derive(Clone, Copy, Debug, PartialEq, Eq, Structural)]
pub struct HardwareObservationKind {}

#[derive(Clone, Copy, Debug, PartialEq, Eq, Structural)]
pub struct PairingInviteKind {}

#[derive(Clone, Copy, Debug, PartialEq, Eq, Structural)]
pub struct CredentialKind {}

#[derive(Clone, Copy, Debug, PartialEq, Eq, Structural)]
pub struct ControllerKind {}

#[derive(Clone, Copy, Debug, PartialEq, Eq, Structural)]
pub struct TechnicalKind {}

#[derive(Clone, Copy, Debug, PartialEq, Eq, Structural)]
pub struct LogicalModelKind {}

#[derive(Clone, Copy, Debug, PartialEq, Eq, Structural)]
pub struct DisplayKind {}

#[derive(Clone, Copy, Debug, PartialEq, Eq, Structural)]
pub struct NodeAddressKind {}

#[derive(Clone, Copy, Debug, PartialEq, Eq, Structural)]
pub struct NetworkInterfaceKind {}

#[derive(Clone, Copy, Debug, PartialEq, Eq, Structural)]
pub struct RuntimeCandidateKind {}

#[derive(Clone, Copy, Debug, PartialEq, Eq, Structural)]
pub struct RuntimeVersionKind {}

#[derive(Clone, Copy, Debug, PartialEq, Eq, Structural)]
pub struct RuntimeSourceKind {}

#[derive(Clone, Copy, Debug, PartialEq, Eq, Structural)]
pub struct TargetKind {}

impl Kind for NodeKind {
    fn kind() -> Self {
        NodeKind {}
    }

    proof fn is_unique(left: Self, right: Self) {
    }
}

impl Kind for MachineKind {
    fn kind() -> Self {
        MachineKind {}
    }

    proof fn is_unique(left: Self, right: Self) {
    }
}

impl Kind for InstallationKind {
    fn kind() -> Self {
        InstallationKind {}
    }

    proof fn is_unique(left: Self, right: Self) {
    }
}

impl Kind for OperationMarker {
    fn kind() -> Self {
        OperationMarker {}
    }

    proof fn is_unique(left: Self, right: Self) {
    }
}

impl Kind for ModelServiceKind {
    fn kind() -> Self {
        ModelServiceKind {}
    }

    proof fn is_unique(left: Self, right: Self) {
    }
}

impl Kind for PlacementGroupKind {
    fn kind() -> Self {
        PlacementGroupKind {}
    }

    proof fn is_unique(left: Self, right: Self) {
    }
}

impl Kind for RuntimeInstallationKind {
    fn kind() -> Self {
        RuntimeInstallationKind {}
    }

    proof fn is_unique(left: Self, right: Self) {
    }
}

impl Kind for HardwareObservationKind {
    fn kind() -> Self {
        HardwareObservationKind {}
    }

    proof fn is_unique(left: Self, right: Self) {
    }
}

impl Kind for PairingInviteKind {
    fn kind() -> Self {
        PairingInviteKind {}
    }

    proof fn is_unique(left: Self, right: Self) {
    }
}

impl Kind for CredentialKind {
    fn kind() -> Self {
        CredentialKind {}
    }

    proof fn is_unique(left: Self, right: Self) {
    }
}

impl Kind for ControllerKind {
    fn kind() -> Self {
        ControllerKind {}
    }

    proof fn is_unique(left: Self, right: Self) {
    }
}

impl Kind for TechnicalKind {
    fn kind() -> Self {
        TechnicalKind {}
    }

    proof fn is_unique(left: Self, right: Self) {
    }
}

impl Kind for LogicalModelKind {
    fn kind() -> Self {
        LogicalModelKind {}
    }

    proof fn is_unique(left: Self, right: Self) {
    }
}

impl Kind for DisplayKind {
    fn kind() -> Self {
        DisplayKind {}
    }

    proof fn is_unique(left: Self, right: Self) {
    }
}

impl Kind for NodeAddressKind {
    fn kind() -> Self {
        NodeAddressKind {}
    }

    proof fn is_unique(left: Self, right: Self) {
    }
}

impl Kind for NetworkInterfaceKind {
    fn kind() -> Self {
        NetworkInterfaceKind {}
    }

    proof fn is_unique(left: Self, right: Self) {
    }
}

impl Kind for RuntimeCandidateKind {
    fn kind() -> Self {
        RuntimeCandidateKind {}
    }

    proof fn is_unique(left: Self, right: Self) {
    }
}

impl Kind for RuntimeVersionKind {
    fn kind() -> Self {
        RuntimeVersionKind {}
    }

    proof fn is_unique(left: Self, right: Self) {
    }
}

impl Kind for RuntimeSourceKind {
    fn kind() -> Self {
        RuntimeSourceKind {}
    }

    proof fn is_unique(left: Self, right: Self) {
    }
}

impl Kind for TargetKind {
    fn kind() -> Self {
        TargetKind {}
    }

    proof fn is_unique(left: Self, right: Self) {
    }
}

#[derive(Clone, Copy, Debug, PartialEq, Eq, Structural)]
pub struct BootKind {}

impl Kind for BootKind {
    fn kind() -> Self {
        BootKind {}
    }

    proof fn is_unique(left: Self, right: Self) {
    }
}

#[derive(Clone, Copy, Debug, PartialEq, Eq, Structural)]
pub struct DeviceKind {}

impl Kind for DeviceKind {
    fn kind() -> Self {
        DeviceKind {}
    }

    proof fn is_unique(left: Self, right: Self) {
    }
}

#[derive(Clone, Copy, Debug, PartialEq, Eq, Structural)]
pub struct TaskKind {}

impl Kind for TaskKind {
    fn kind() -> Self {
        TaskKind {}
    }

    proof fn is_unique(left: Self, right: Self) {
    }
}

#[derive(Clone, Copy, Debug, PartialEq, Eq, Structural)]
pub struct LogCursorKind {}

impl Kind for LogCursorKind {
    fn kind() -> Self {
        LogCursorKind {}
    }

    proof fn is_unique(left: Self, right: Self) {
    }
}

pub type NodeId = Id<NodeKind>;

pub type MachineId = Id<MachineKind>;

pub type InstallationId = Id<InstallationKind>;

pub type OperationId = Id<OperationMarker>;

pub type ModelServiceId = Id<ModelServiceKind>;

pub type PlacementGroupId = Id<PlacementGroupKind>;

pub type RuntimeInstallationId = Id<RuntimeInstallationKind>;

pub type HardwareObservationId = Id<HardwareObservationKind>;

pub type PairingInviteId = Id<PairingInviteKind>;

pub type CredentialId = Id<CredentialKind>;

pub type ControllerId = Id<ControllerKind>;

// ---------------------------------------------------------------------------
// Digests
// ---------------------------------------------------------------------------

/// One SHA-256 digest.
#[derive(Clone, Copy, Debug, PartialEq, Eq, Structural)]
pub struct Sha256Digest {
    pub high: u128,
    pub low: u128,
}

impl View for Sha256Digest {
    type V = Sha256Digest;

    open spec fn view(&self) -> Sha256Digest {
        *self
    }
}

impl Valued for Sha256Digest {
    fn copy(&self) -> (copy: Self) {
        *self
    }

    fn same(&self, other: &Self) -> (same: bool) {
        self.high == other.high && self.low == other.low
    }
}

impl Sha256Digest {
    /// The sixty-four lowercase hexadecimal characters of the digest.
    pub open spec fn text(self) -> Seq<char> {
        hex_text(self.high as nat, 32) + hex_text(self.low as nat, 32)
    }

    /// The digest that thirty-two bytes spell.
    pub open spec fn of_bytes(bytes: Seq<u8>) -> Sha256Digest {
        Sha256Digest {
            high: be_number(bytes.subrange(0, 16)) as u128,
            low: be_number(bytes.subrange(16, 32)) as u128,
        }
    }

    /// The digest that sixty-four hexadecimal characters spell.
    pub open spec fn of_text(text: Seq<char>) -> Sha256Digest {
        Sha256Digest {
            high: hex_number(text.subrange(0, 32)) as u128,
            low: hex_number(text.subrange(32, 64)) as u128,
        }
    }

    /// Reads one digest from exactly sixty-four lowercase hexadecimal characters.
    pub fn parse(text: &str) -> (result: Result<Sha256Digest, InterfaceError>)
        ensures
            result is Ok <==> lower_hex(text@, 64),
            result matches Ok(digest) ==> digest == Sha256Digest::of_text(text@) && digest.text()
                == text@,
            result matches Err(error) ==> error == InterfaceError::InvalidIdentity,
    {
        if !is_lower_hex(text, 64) {
            return Err(InterfaceError::InvalidIdentity);
        }
        let left = text.substring_char(0, 32);
        let right = text.substring_char(32, 64);
        proof {
            assert forall|i: int| 0 <= i < 32 implies crate::text::is_lower_hex_char(
                #[trigger] left@[i],
            ) by {
                assert(left@[i] == text@[i]);
            }
            assert forall|i: int| 0 <= i < 32 implies crate::text::is_lower_hex_char(
                #[trigger] right@[i],
            ) by {
                assert(right@[i] == text@[32 + i]);
            }
            lemma_hex_number_text(left@);
            lemma_hex_number_text(right@);
            assert(left@ + right@ =~= text@);
        }
        match (parse_hex_128(left), parse_hex_128(right)) {
            (Some(high), Some(low)) => Ok(Sha256Digest { high, low }),
            _ => Err(InterfaceError::InvalidIdentity),
        }
    }

    /// Returns the digest that thirty-two bytes spell.
    pub fn from_bytes(bytes: &[u8]) -> (digest: Sha256Digest)
        requires
            bytes@.len() == 32,
        ensures
            digest == Sha256Digest::of_bytes(bytes@),
    {
        proof {
            lemma_pow256_values();
            lemma_be_number_bytes(bytes@.subrange(0, 16));
            lemma_be_number_bytes(bytes@.subrange(16, 32));
        }
        Sha256Digest { high: be_number_128(bytes, 0), low: be_number_128(bytes, 16) }
    }

    /// Returns the canonical text of the digest.
    pub fn to_text(&self) -> (text: String)
        ensures
            text@ == self.text(),
    {
        let mut text = hex(self.high, 32);
        text.append(hex(self.low, 32).as_str());
        text
    }

    /// The identity that the first half of the digest's text spells.
    pub open spec fn credential(self) -> CredentialId {
        Id { value: self.high, kind: CredentialKind {} }
    }

    /// Returns the identity that the first half of the digest's text spells.
    pub fn credential_id(&self) -> (credential_id: CredentialId)
        ensures
            credential_id == self.credential(),
    {
        Id { value: self.high, kind: CredentialKind {} }
    }
}

/// The credential of a digest is spelled by the first half of the digest's text.
pub proof fn law_credential_text(digest: Sha256Digest)
    ensures
        digest.credential().text() == digest.text().take(32),
{
    lemma_pow16_32();
    lemma_hex_text_length(digest.high as nat, 32);
    assert(digest.text().take(32) =~= digest.credential().text());
}

/// Reading a digest's text gives the digest back.
pub proof fn law_digest_text(digest: Sha256Digest)
    ensures
        lower_hex(digest.text(), 64),
        Sha256Digest::of_text(digest.text()) == digest,
{
    lemma_pow16_32();
    lemma_hex_text_number(digest.high as nat, 32);
    lemma_hex_text_number(digest.low as nat, 32);
    let text = digest.text();
    assert(text.subrange(0, 32) =~= hex_text(digest.high as nat, 32));
    assert(text.subrange(32, 64) =~= hex_text(digest.low as nat, 32));
    assert forall|i: int| 0 <= i < text.len() implies crate::text::is_lower_hex_char(
        #[trigger] text[i],
    ) by {
        if i < 32 {
            assert(text[i] == hex_text(digest.high as nat, 32)[i]);
        } else {
            assert(text[i] == hex_text(digest.low as nat, 32)[i - 32]);
        }
    }
}

/// Two digests with the same text are the same digest.
pub proof fn law_digest_text_injective(left: Sha256Digest, right: Sha256Digest)
    requires
        left.text() == right.text(),
    ensures
        left == right,
{
    law_digest_text(left);
    law_digest_text(right);
}

/// A digest's text is the lowercase hexadecimal text of its bytes.
pub proof fn law_digest_byte_text(bytes: Seq<u8>)
    requires
        bytes.len() == 32,
    ensures
        Sha256Digest::of_bytes(bytes).text() == byte_hex(bytes.subrange(0, 16)) + byte_hex(
            bytes.subrange(16, 32),
        ),
{
    lemma_pow256_values();
    lemma_be_number_bytes(bytes.subrange(0, 16));
    lemma_be_number_bytes(bytes.subrange(16, 32));
    lemma_byte_hex(bytes.subrange(0, 16));
    lemma_byte_hex(bytes.subrange(16, 32));
}

// ---------------------------------------------------------------------------
// Names
// ---------------------------------------------------------------------------

/// One nonempty text that its owner has accepted.
#[derive(Debug)]
pub struct Name<K> {
    text: String,
    kind: K,
}

impl<K> View for Name<K> {
    type V = Seq<char>;

    closed spec fn view(&self) -> Seq<char> {
        self.text@
    }
}

impl<K> Name<K> {
    #[verifier::type_invariant]
    closed spec fn is_named(self) -> bool {
        self.text@.len() > 0
    }
}

impl<K: Kind> Name<K> {
    /// Accepts one nonempty text; that rule is this library's own choice.
    pub fn parse(text: &str) -> (result: Result<Name<K>, InterfaceError>)
        ensures
            result is Ok <==> text@.len() > 0,
            result matches Ok(name) ==> name@ == text@,
            result matches Err(error) ==> error == InterfaceError::InvalidName,
    {
        if text.is_empty() {
            return Err(InterfaceError::InvalidName);
        }
        Ok(Name { text: text.to_owned(), kind: K::kind() })
    }

    /// Returns the accepted text.
    pub fn as_str(&self) -> (text: &str)
        ensures
            text@ == self@,
            text@.len() > 0,
    {
        proof {
            use_type_invariant(self);
        }
        self.text.as_str()
    }
}

impl<K: Kind> Clone for Name<K> {
    fn clone(&self) -> (copy: Self)
        ensures
            copy@ == self@,
    {
        proof {
            use_type_invariant(self);
        }
        Name { text: self.text.clone(), kind: self.kind }
    }
}

impl<K: Kind> Valued for Name<K> {
    fn copy(&self) -> (copy: Self) {
        self.clone()
    }

    fn same(&self, other: &Self) -> (same: bool) {
        self.text == other.text
    }
}

pub type TechnicalName = Name<TechnicalKind>;

pub type LogicalModelName = Name<LogicalModelKind>;

pub type DisplayName = Name<DisplayKind>;

pub type NodeAddress = Name<NodeAddressKind>;

pub type NetworkInterfaceName = Name<NetworkInterfaceKind>;

pub type RuntimeCandidateId = Name<RuntimeCandidateKind>;

pub type RuntimeVersion = Name<RuntimeVersionKind>;

pub type RuntimeSource = Name<RuntimeSourceKind>;

pub type TargetId = Name<TargetKind>;

// ---------------------------------------------------------------------------
// Time
// ---------------------------------------------------------------------------

/// One point in time in Unix milliseconds.
#[derive(Clone, Copy, Debug, PartialEq, Eq, Structural)]
pub struct UnixMilliseconds {
    pub value: u64,
}

impl View for UnixMilliseconds {
    type V = UnixMilliseconds;

    open spec fn view(&self) -> UnixMilliseconds {
        *self
    }
}

impl UnixMilliseconds {
    /// Creates one point in time.
    pub fn new(value: u64) -> (time: UnixMilliseconds)
        ensures
            time.value == value,
    {
        UnixMilliseconds { value }
    }

    /// Returns the milliseconds since the Unix epoch.
    pub fn value(self) -> (value: u64)
        ensures
            value == self.value,
    {
        self.value
    }
}

/// One length of time.
#[derive(Clone, Copy, Debug, PartialEq, Eq, Structural)]
pub struct TimeSpan {
    pub nanoseconds: u128,
}

impl TimeSpan {
    /// Creates one length of time from whole milliseconds.
    pub fn from_millis(milliseconds: u64) -> (span: TimeSpan)
        ensures
            span.nanoseconds == milliseconds as nat * 1_000_000,
    {
        TimeSpan { nanoseconds: milliseconds as u128 * 1_000_000 }
    }

    /// Creates one length of time from nanoseconds.
    pub fn from_nanos(nanoseconds: u128) -> (span: TimeSpan)
        ensures
            span.nanoseconds == nanoseconds,
    {
        TimeSpan { nanoseconds }
    }
}

/// When one entity was created and last updated.
#[derive(Clone, Copy, Debug, PartialEq, Eq, Structural)]
pub struct EntityTimestamps {
    pub created_at: UnixMilliseconds,
    pub updated_at: UnixMilliseconds,
}

impl EntityTimestamps {
    /// Creates timestamps only when the update does not precede the creation; that rule is this
    /// library's own choice.
    pub fn new(created_at: UnixMilliseconds, updated_at: UnixMilliseconds) -> (result: Result<
        EntityTimestamps,
        InterfaceError,
    >)
        ensures
            result == entity_timestamps(created_at, updated_at),
    {
        if updated_at.value < created_at.value {
            return Err(InterfaceError::InvalidTimestamps);
        }
        Ok(EntityTimestamps { created_at, updated_at })
    }
}

/// Timestamps exist exactly when the update does not precede the creation.
pub open spec fn entity_timestamps(
    created_at: UnixMilliseconds,
    updated_at: UnixMilliseconds,
) -> Result<EntityTimestamps, InterfaceError> {
    if updated_at.value < created_at.value {
        Err(InterfaceError::InvalidTimestamps)
    } else {
        Ok(EntityTimestamps { created_at, updated_at })
    }
}

} // verus!
