//! Names of the things a namespace holds.
use vstd::prelude::*;

use crate::sorted_map::Key;
use crate::text::{lemma_lex_irreflexive, lemma_lex_total, lemma_lex_transitive, lex_before, text_before};

verus! {

/// The name of a namespace.
#[derive(Debug, PartialEq, Eq)]
pub struct NamespaceId(pub String);

impl Clone for NamespaceId {
    fn clone(&self) -> (r: Self)
        ensures
            r == *self,
    {
        NamespaceId(self.0.clone())
    }
}

impl Key for NamespaceId {
    type Id = Seq<char>;

    open spec fn id(&self) -> Seq<char> {
        self.0@
    }

    open spec fn before(a: Seq<char>, b: Seq<char>) -> bool {
        lex_before(a, b)
    }

    proof fn before_irreflexive(a: Seq<char>) {
        lemma_lex_irreflexive(a);
    }

    proof fn before_transitive(a: Seq<char>, b: Seq<char>, c: Seq<char>) {
        lemma_lex_transitive(a, b, c);
    }

    proof fn before_total(a: Seq<char>, b: Seq<char>) {
        lemma_lex_total(a, b);
    }

    fn same(&self, other: &Self) -> (r: bool) {
        self.0 == other.0
    }

    fn precedes(&self, other: &Self) -> (r: bool) {
        text_before(self.0.as_str(), other.0.as_str())
    }

    fn duplicate(&self) -> (r: Self) {
        self.clone()
    }
}

/// The name of a worker.
#[derive(Debug, PartialEq, Eq)]
pub struct WorkerId(pub String);

impl Clone for WorkerId {
    fn clone(&self) -> (r: Self)
        ensures
            r == *self,
    {
        WorkerId(self.0.clone())
    }
}

impl Key for WorkerId {
    type Id = Seq<char>;

    open spec fn id(&self) -> Seq<char> {
        self.0@
    }

    open spec fn before(a: Seq<char>, b: Seq<char>) -> bool {
        lex_before(a, b)
    }

    proof fn before_irreflexive(a: Seq<char>) {
        lemma_lex_irreflexive(a);
    }

    proof fn before_transitive(a: Seq<char>, b: Seq<char>, c: Seq<char>) {
        lemma_lex_transitive(a, b, c);
    }

    proof fn before_total(a: Seq<char>, b: Seq<char>) {
        lemma_lex_total(a, b);
    }

    fn same(&self, other: &Self) -> (r: bool) {
        self.0 == other.0
    }

    fn precedes(&self, other: &Self) -> (r: bool) {
        text_before(self.0.as_str(), other.0.as_str())
    }

    fn duplicate(&self) -> (r: Self) {
        self.clone()
    }
}

/// The name of a pod.
#[derive(Debug, PartialEq, Eq)]
pub struct PodId(pub String);

impl Clone for PodId {
    fn clone(&self) -> (r: Self)
        ensures
            r == *self,
    {
        PodId(self.0.clone())
    }
}

impl Key for PodId {
    type Id = Seq<char>;

    open spec fn id(&self) -> Seq<char> {
        self.0@
    }

    open spec fn before(a: Seq<char>, b: Seq<char>) -> bool {
        lex_before(a, b)
    }

    proof fn before_irreflexive(a: Seq<char>) {
        lemma_lex_irreflexive(a);
    }

    proof fn before_transitive(a: Seq<char>, b: Seq<char>, c: Seq<char>) {
        lemma_lex_transitive(a, b, c);
    }

    proof fn before_total(a: Seq<char>, b: Seq<char>) {
        lemma_lex_total(a, b);
    }

    fn same(&self, other: &Self) -> (r: bool) {
        self.0 == other.0
    }

    fn precedes(&self, other: &Self) -> (r: bool) {
        text_before(self.0.as_str(), other.0.as_str())
    }

    fn duplicate(&self) -> (r: Self) {
        self.clone()
    }
}

/// The name of a workload.
#[derive(Debug, PartialEq, Eq)]
pub struct WorkloadId(pub String);

impl Clone for WorkloadId {
    fn clone(&self) -> (r: Self)
        ensures
            r == *self,
    {
        WorkloadId(self.0.clone())
    }
}

impl Key for WorkloadId {
    type Id = Seq<char>;

    open spec fn id(&self) -> Seq<char> {
        self.0@
    }

    open spec fn before(a: Seq<char>, b: Seq<char>) -> bool {
        lex_before(a, b)
    }

    proof fn before_irreflexive(a: Seq<char>) {
        lemma_lex_irreflexive(a);
    }

    proof fn before_transitive(a: Seq<char>, b: Seq<char>, c: Seq<char>) {
        lemma_lex_transitive(a, b, c);
    }

    proof fn before_total(a: Seq<char>, b: Seq<char>) {
        lemma_lex_total(a, b);
    }

    fn same(&self, other: &Self) -> (r: bool) {
        self.0 == other.0
    }

    fn precedes(&self, other: &Self) -> (r: bool) {
        text_before(self.0.as_str(), other.0.as_str())
    }

    fn duplicate(&self) -> (r: Self) {
        self.clone()
    }
}

/// The name of a service.
#[derive(Debug, PartialEq, Eq)]
pub struct ServiceId(pub String);

impl Clone for ServiceId {
    fn clone(&self) -> (r: Self)
        ensures
            r == *self,
    {
        ServiceId(self.0.clone())
    }
}

impl Key for ServiceId {
    type Id = Seq<char>;

    open spec fn id(&self) -> Seq<char> {
        self.0@
    }

    open spec fn before(a: Seq<char>, b: Seq<char>) -> bool {
        lex_before(a, b)
    }

    proof fn before_irreflexive(a: Seq<char>) {
        lemma_lex_irreflexive(a);
    }

    proof fn before_transitive(a: Seq<char>, b: Seq<char>, c: Seq<char>) {
        lemma_lex_transitive(a, b, c);
    }

    proof fn before_total(a: Seq<char>, b: Seq<char>) {
        lemma_lex_total(a, b);
    }

    fn same(&self, other: &Self) -> (r: bool) {
        self.0 == other.0
    }

    fn precedes(&self, other: &Self) -> (r: bool) {
        text_before(self.0.as_str(), other.0.as_str())
    }

    fn duplicate(&self) -> (r: Self) {
        self.clone()
    }
}

/// The name of a stored snapshot.
#[derive(Debug, PartialEq, Eq)]
pub struct ArtifactId(pub String);

impl Clone for ArtifactId {
    fn clone(&self) -> (r: Self)
        ensures
            r == *self,
    {
        ArtifactId(self.0.clone())
    }
}

impl Key for ArtifactId {
    type Id = Seq<char>;

    open spec fn id(&self) -> Seq<char> {
        self.0@
    }

    open spec fn before(a: Seq<char>, b: Seq<char>) -> bool {
        lex_before(a, b)
    }

    proof fn before_irreflexive(a: Seq<char>) {
        lemma_lex_irreflexive(a);
    }

    proof fn before_transitive(a: Seq<char>, b: Seq<char>, c: Seq<char>) {
        lemma_lex_transitive(a, b, c);
    }

    proof fn before_total(a: Seq<char>, b: Seq<char>) {
        lemma_lex_total(a, b);
    }

    fn same(&self, other: &Self) -> (r: bool) {
        self.0 == other.0
    }

    fn precedes(&self, other: &Self) -> (r: bool) {
        text_before(self.0.as_str(), other.0.as_str())
    }

    fn duplicate(&self) -> (r: Self) {
        self.clone()
    }
}

/// The name of a storage pool.
#[derive(Debug, PartialEq, Eq)]
pub struct PoolId(pub String);

impl Clone for PoolId {
    fn clone(&self) -> (r: Self)
        ensures
            r == *self,
    {
        PoolId(self.0.clone())
    }
}

impl Key for PoolId {
    type Id = Seq<char>;

    open spec fn id(&self) -> Seq<char> {
        self.0@
    }

    open spec fn before(a: Seq<char>, b: Seq<char>) -> bool {
        lex_before(a, b)
    }

    proof fn before_irreflexive(a: Seq<char>) {
        lemma_lex_irreflexive(a);
    }

    proof fn before_transitive(a: Seq<char>, b: Seq<char>, c: Seq<char>) {
        lemma_lex_transitive(a, b, c);
    }

    proof fn before_total(a: Seq<char>, b: Seq<char>) {
        lemma_lex_total(a, b);
    }

    fn same(&self, other: &Self) -> (r: bool) {
        self.0 == other.0
    }

    fn precedes(&self, other: &Self) -> (r: bool) {
        text_before(self.0.as_str(), other.0.as_str())
    }

    fn duplicate(&self) -> (r: Self) {
        self.clone()
    }
}

/// A connected client.
#[derive(Debug, Clone, Copy, PartialEq, Eq, Structural)]
pub struct ClientId(pub u64);

impl Key for ClientId {
    type Id = ClientId;

    open spec fn id(&self) -> ClientId {
        *self
    }

    open spec fn before(a: ClientId, b: ClientId) -> bool {
        a.0 < b.0
    }

    proof fn before_irreflexive(a: ClientId) {
    }

    proof fn before_transitive(a: ClientId, b: ClientId, c: ClientId) {
    }

    proof fn before_total(a: ClientId, b: ClientId) {
    }

    fn same(&self, other: &Self) -> (r: bool) {
        self.0 == other.0
    }

    fn precedes(&self, other: &Self) -> (r: bool) {
        self.0 < other.0
    }

    fn duplicate(&self) -> (r: Self) {
        *self
    }
}

/// A key that is a name.
pub trait Named: Key<Id = Seq<char>> {
    fn name(&self) -> (r: &String)
        ensures
            r@ == self.id(),
    ;
}

impl Named for WorkloadId {
    fn name(&self) -> (r: &String) {
        &self.0
    }
}

impl Named for ServiceId {
    fn name(&self) -> (r: &String) {
        &self.0
    }
}

} // verus!
