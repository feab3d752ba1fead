//! The life of a registry as a series of changes, and what holds of the
//! identifiers over that life.
//!
//! A registry is the sessions that are live together with every identifier
//! it has ever issued. The operations of the session manager change it as
//! [`Registry::apply`] says. The laws below hold of every series of changes.

use vstd::prelude::*;

verus! {

/// The content of a registry.
pub struct Registry<H> {
    /// The handles of the live sessions, by identifier.
    pub live: Map<Seq<char>, H>,
    /// Every identifier a session was ever created under, closed or not.
    pub issued: Set<Seq<char>>,
}

/// One change asked of a registry.
pub enum Change<H> {
    /// Create a session under `id`.
    Created { id: Seq<char>, handles: H },
    /// Close the session `id`.
    Closed { id: Seq<char> },
}

impl<H> Change<H> {
    /// Whether the change asks for a session under `id`.
    pub open spec fn creates(self, id: Seq<char>) -> bool {
        self matches Change::Created { id: created, .. } && created == id
    }

    /// Whether the change closes the session `id`.
    pub open spec fn closes(self, id: Seq<char>) -> bool {
        self matches Change::Closed { id: closed } && closed == id
    }
}

impl<H> Registry<H> {
    /// The registry before anything was created.
    pub open spec fn empty() -> Registry<H> {
        Registry { live: Map::empty(), issued: Set::empty() }
    }

    /// Every live identifier was issued, and only finitely many were.
    pub open spec fn sound(self) -> bool {
        &&& self.live.dom().subset_of(self.issued)
        &&& self.issued.finite()
        &&& self.live.dom().finite()
    }

    /// The registry after one change. A creation under an identifier that
    /// was issued before is refused and changes nothing; closing removes the
    /// session and keeps the identifier on record.
    pub open spec fn apply(self, change: Change<H>) -> Registry<H> {
        match change {
            Change::Created { id, handles } => if self.issued.contains(id) {
                self
            } else {
                Registry { live: self.live.insert(id, handles), issued: self.issued.insert(id) }
            },
            Change::Closed { id } => Registry { live: self.live.remove(id), issued: self.issued },
        }
    }

    /// The registry after a series of changes.
    pub open spec fn after(self, changes: Seq<Change<H>>) -> Registry<H>
        decreases changes.len(),
    {
        if changes.len() == 0 {
            self
        } else {
            self.after(changes.drop_last()).apply(changes.last())
        }
    }
}

/// No change breaks a registry: every live identifier stays on record.
pub proof fn lemma_changes_keep_soundness<H>(start: Registry<H>, changes: Seq<Change<H>>)
    requires
        start.sound(),
    ensures
        start.after(changes).sound(),
    decreases changes.len(),
{
    if changes.len() > 0 {
        lemma_changes_keep_soundness(start, changes.drop_last());
    }
}

/// The record only grows: what was issued after the first `n` changes is
/// still on record after the first `m`, for `n <= m`.
pub proof fn lemma_issued_only_grows<H>(
    start: Registry<H>,
    changes: Seq<Change<H>>,
    n: int,
    m: int,
)
    requires
        0 <= n <= m <= changes.len(),
    ensures
        start.after(changes.take(n)).issued.subset_of(start.after(changes.take(m)).issued),
    decreases m - n,
{
    if n < m {
        lemma_issued_only_grows(start, changes, n, m - 1);
        assert(changes.take(m).drop_last() =~= changes.take(m - 1));
    }
}

/// A creation that is accepted displaces nothing: the identifier was not in
/// use, every session that was live still is, under its own identifier and
/// with its own handles, and there is one session more.
pub proof fn lemma_creation_displaces_nothing<H>(
    registry: Registry<H>,
    id: Seq<char>,
    handles: H,
)
    requires
        registry.sound(),
        !registry.issued.contains(id),
    ensures
        !registry.live.contains_key(id),
        registry.live.submap_of(registry.apply(Change::Created { id, handles }).live),
        registry.apply(Change::Created { id, handles }).live[id] == handles,
        registry.apply(Change::Created { id, handles }).live.len() == registry.live.len() + 1,
{
}

/// No identifier is handed out twice: two creations that were both accepted
/// have different identifiers, whatever was closed between them.
pub proof fn lemma_created_identifiers_differ<H>(
    start: Registry<H>,
    changes: Seq<Change<H>>,
    first: int,
    second: int,
)
    requires
        0 <= first < second < changes.len(),
        changes[first] is Created,
        changes[second] is Created,
        !start.after(changes.take(first)).issued.contains(changes[first]->Created_id),
        !start.after(changes.take(second)).issued.contains(changes[second]->Created_id),
    ensures
        changes[first]->Created_id != changes[second]->Created_id,
{
    assert(changes.take(first + 1).drop_last() =~= changes.take(first));
    assert(changes.take(first + 1).last() == changes[first]);
    lemma_issued_only_grows(start, changes, first + 1, second);
}

/// An identifier under which no session was ever asked for is neither live
/// nor on record.
pub proof fn lemma_never_created_is_absent<H>(changes: Seq<Change<H>>, id: Seq<char>)
    requires
        forall|i: int| 0 <= i < changes.len() ==> !(#[trigger] changes[i]).creates(id),
    ensures
        !Registry::<H>::empty().after(changes).live.contains_key(id),
        !Registry::<H>::empty().after(changes).issued.contains(id),
    decreases changes.len(),
{
    if changes.len() > 0 {
        let before = changes.drop_last();
        assert forall|i: int| 0 <= i < before.len() implies !(#[trigger] before[i]).creates(id) by {
            assert(before[i] == changes[i]);
        }
        lemma_never_created_is_absent(before, id);
        assert(!changes[changes.len() - 1].creates(id));
    }
}

/// A closed identifier is never used again: once the live session `id` has
/// been closed, at change `k`, no later change brings the identifier back,
/// not even a creation under it.
pub proof fn lemma_closed_is_never_found_again<H>(
    start: Registry<H>,
    changes: Seq<Change<H>>,
    id: Seq<char>,
    k: int,
)
    requires
        start.sound(),
        0 <= k < changes.len(),
        changes[k].closes(id),
        start.after(changes.take(k)).live.contains_key(id),
    ensures
        !start.after(changes).live.contains_key(id),
        start.after(changes).issued.contains(id),
    decreases changes.len(),
{
    let before = changes.drop_last();
    if k == changes.len() - 1 {
        assert(changes.take(k) =~= before);
        lemma_changes_keep_soundness(start, before);
    } else {
        assert(before[k] == changes[k]);
        assert(before.take(k) =~= changes.take(k));
        lemma_closed_is_never_found_again(start, before, id, k);
    }
}

/// A created session is found until it is closed: after the creation of
/// `handles` under `id` was accepted, at change `k`, and with no later close
/// of that identifier, the registry holds `handles` under `id`.
pub proof fn lemma_created_is_found<H>(
    start: Registry<H>,
    changes: Seq<Change<H>>,
    id: Seq<char>,
    handles: H,
    k: int,
)
    requires
        0 <= k < changes.len(),
        changes[k] == (Change::Created { id, handles }),
        !start.after(changes.take(k)).issued.contains(id),
        forall|j: int| k < j < changes.len() ==> !(#[trigger] changes[j]).closes(id),
    ensures
        start.after(changes).live.contains_key(id),
        start.after(changes).live[id] == handles,
        start.after(changes).issued.contains(id),
    decreases changes.len(),
{
    let before = changes.drop_last();
    if k == changes.len() - 1 {
        assert(changes.take(k) =~= before);
    } else {
        assert(before[k] == changes[k]);
        assert(before.take(k) =~= changes.take(k));
        assert forall|j: int| k < j < before.len() implies !(#[trigger] before[j]).closes(id) by {
            assert(before[j] == changes[j]);
        }
        lemma_created_is_found(start, before, id, handles, k);
        assert(!changes[changes.len() - 1].closes(id));
    }
}

} // verus!
