//! The catalog of named resources and the store of grants: two tables, what
//! each statement does to them, and what each query reads from them.

use crate::filtered::{lemma_filter_distinct, lemma_filter_order};
use crate::operation::Operation;
use crate::text::same_text;
use crate::user_acl::{group_user_acl, grouped, entries, row_texts, ResourceOperations};
use vstd::prelude::*;

verus! {

/// A named thing that access is scoped to.
#[derive(Debug, Clone)]
pub struct Resource {
    pub id: i64,
    pub name: String,
}

impl Resource {
    /// The row that a resource stands for: its id and its name.
    pub open spec fn row(self) -> (i64, Seq<char>) {
        (self.id, self.name@)
    }

    /// A second resource with the same id and name.
    pub fn duplicate(&self) -> (copy: Resource)
        ensures
            copy == *self,
    {
        Resource { id: self.id, name: self.name.clone() }
    }

    /// The name of the resource that stands for the catalog itself.
    pub fn default() -> (name: String)
        ensures
            name@ == "resource"@,
    {
        "resource".to_owned()
    }
}

/// One row of the grant table: `uid` may perform `operation` on the resource
/// with the id `resource_id`.
#[derive(Debug, Clone, Copy, PartialEq, Eq, Structural)]
pub struct Grant {
    pub uid: i64,
    pub resource_id: i64,
    pub operation: Operation,
}

/// Why a statement was refused.
#[derive(Debug, Clone, Copy, PartialEq, Eq, Structural)]
pub enum StorageError {
    /// The row is there already.
    Duplicate,
    /// No row answers the query.
    NotFound,
    /// No id is left for a new row.
    Exhausted,
}

/// The two tables as values: the resource rows and the grant rows, each in
/// the order of insertion, and the id that the next resource gets.
pub struct Tables {
    pub resources: Seq<(i64, Seq<char>)>,
    pub grants: Seq<Grant>,
    pub next_id: int,
}

/// The id under which `name` is listed in `rows`, if it is.
pub open spec fn id_of(rows: Seq<(i64, Seq<char>)>, name: Seq<char>) -> Option<i64>
    decreases rows.len(),
{
    if rows.len() == 0 {
        None
    } else if rows.last().1 == name {
        Some(rows.last().0)
    } else {
        id_of(rows.drop_last(), name)
    }
}

/// The name that `rows` lists under `id`, if any.
pub open spec fn name_of(rows: Seq<(i64, Seq<char>)>, id: i64) -> Option<Seq<char>>
    decreases rows.len(),
{
    if rows.len() == 0 {
        None
    } else if rows.last().0 == id {
        Some(rows.last().1)
    } else {
        name_of(rows.drop_last(), id)
    }
}

/// The rows of the join of `grants` and `resources` for `uid`.
pub open spec fn joined_rows(resources: Seq<(i64, Seq<char>)>, grants: Seq<Grant>, uid: int) -> Seq<
    (Seq<char>, Seq<char>),
>
    decreases grants.len(),
{
    if grants.len() == 0 {
        Seq::empty()
    } else {
        let before = joined_rows(resources, grants.drop_last(), uid);
        let grant = grants.last();
        match name_of(resources, grant.resource_id) {
            Some(name) => if grant.uid == uid {
                before.push((name, grant.operation.name()))
            } else {
                before
            },
            None => before,
        }
    }
}

/// The rows that are left when those with `name` are taken out.
pub open spec fn rows_without(
    rows: Seq<(i64, Seq<char>)>,
    name: Seq<char>,
) -> Seq<(i64, Seq<char>)> {
    rows.filter(named_otherwise(name))
}

/// The test that a row is not called `name`.
pub open spec fn named_otherwise(name: Seq<char>) -> spec_fn((i64, Seq<char>)) -> bool {
    |r: (i64, Seq<char>)| r.1 != name
}

/// The test that a grant row is one of `uid` on the resource `resource_id`.
pub open spec fn held_by(uid: int, resource_id: i64) -> spec_fn(Grant) -> bool {
    |g: Grant| grant_of(g, uid, resource_id)
}

/// The test that a grant row is not the one that a revocation names.
pub open spec fn not_named(uid: i64, resource_id: i64, operation: Seq<char>) -> spec_fn(
    Grant,
) -> bool {
    |g: Grant| !grant_named(g, uid, resource_id, operation)
}

/// The test that a grant row is on another resource than `resource_id`.
pub open spec fn on_another(resource_id: i64) -> spec_fn(Grant) -> bool {
    |g: Grant| g.resource_id != resource_id
}

/// Whether a grant row is one of `uid` on the resource `resource_id`.
pub open spec fn grant_of(g: Grant, uid: int, resource_id: i64) -> bool {
    g.uid == uid && g.resource_id == resource_id
}

/// Whether a grant row is the one that a revocation names: the operation is
/// matched by the text under which it is stored.
pub open spec fn grant_named(g: Grant, uid: i64, resource_id: i64, operation: Seq<char>) -> bool {
    g.uid == uid && g.resource_id == resource_id && g.operation.name() == operation
}

/// The grant rows of `uid` on the resource `resource_id`.
pub open spec fn grants_of(grants: Seq<Grant>, uid: int, resource_id: i64) -> Seq<Grant> {
    grants.filter(held_by(uid, resource_id))
}

/// The grant rows that are left when those that a revocation names are taken
/// out.
pub open spec fn grants_without(
    grants: Seq<Grant>,
    uid: i64,
    resource_id: i64,
    operation: Seq<char>,
) -> Seq<Grant> {
    grants.filter(not_named(uid, resource_id, operation))
}

/// The grant rows that are left when those on the resource `resource_id` are
/// taken out.
pub open spec fn grants_off(grants: Seq<Grant>, resource_id: i64) -> Seq<Grant> {
    grants.filter(on_another(resource_id))
}

impl Tables {
    /// No resource, no grant, and 1 as the first id.
    pub open spec fn empty() -> Tables {
        Tables { resources: Seq::empty(), grants: Seq::empty(), next_id: 1 }
    }

    /// What the tables' constraints ask: ids are positive, below the next id
    /// and given once; names are given once; no grant row occurs twice.
    pub open spec fn wf(self) -> bool {
        &&& 1 <= self.next_id <= i64::MAX
        &&& forall|i: int|
            0 <= i < self.resources.len() ==> 1 <= (#[trigger] self.resources[i]).0 < self.next_id
        &&& forall|i: int, j: int|
            0 <= i < j < self.resources.len() ==> (#[trigger] self.resources[i]).0 != (
            #[trigger] self.resources[j]).0
        &&& forall|i: int, j: int|
            0 <= i < j < self.resources.len() ==> (#[trigger] self.resources[i]).1 != (
            #[trigger] self.resources[j]).1
        &&& forall|i: int, j: int|
            0 <= i < j < self.grants.len() ==> #[trigger] self.grants[i]
                != #[trigger] self.grants[j]
    }

    /// The id of the resource called `name`.
    pub open spec fn resource_id(self, name: Seq<char>) -> Option<i64> {
        id_of(self.resources, name)
    }

    /// The operations granted to `uid` on the resource `resource_id`, in the
    /// order of their rows.
    pub open spec fn operations(self, uid: int, resource_id: i64) -> Seq<Operation> {
        grants_of(self.grants, uid, resource_id).map_values(|g: Grant| g.operation)
    }

    /// Whether the grant table holds the row (`uid`, `resource_id`, `operation`).
    pub open spec fn granted(self, uid: int, resource_id: i64, operation: Operation) -> bool {
        exists|i: int|
            0 <= i < self.grants.len() && grant_of(#[trigger] self.grants[i], uid, resource_id)
                && self.grants[i].operation == operation
    }

    /// The tables after a resource called `name` got the next id.
    pub open spec fn with_resource(self, name: Seq<char>) -> Tables {
        Tables {
            resources: self.resources.push((self.next_id as i64, name)),
            grants: self.grants,
            next_id: self.next_id + 1,
        }
    }

    /// The tables without the resource called `name`. Its grants stay.
    pub open spec fn without_resource(self, name: Seq<char>) -> Tables {
        Tables {
            resources: rows_without(self.resources, name),
            grants: self.grants,
            next_id: self.next_id,
        }
    }

    /// The tables after the row `grant` was added.
    pub open spec fn with_grant(self, grant: Grant) -> Tables {
        Tables {
            resources: self.resources,
            grants: self.grants.push(grant),
            next_id: self.next_id,
        }
    }

    /// The tables after `grant` was added unless it was there.
    pub open spec fn with_grant_once(self, grant: Grant) -> Tables {
        if self.grants.contains(grant) {
            self
        } else {
            self.with_grant(grant)
        }
    }

    /// The tables after a resource called `name` was added, unless the name
    /// is taken or no id is left.
    pub open spec fn with_resource_once(self, name: Seq<char>) -> Tables {
        if self.resource_id(name) is Some || self.next_id >= i64::MAX {
            self
        } else {
            self.with_resource(name)
        }
    }

    /// The tables after `uid` was given what an administrator holds on the
    /// resource `resource_id`: to add, to remove and to check.
    pub open spec fn with_admin(self, uid: i64, resource_id: i64) -> Tables {
        self.with_grant_once(Grant { uid, resource_id, operation: Operation::Add }).with_grant_once(
            Grant { uid, resource_id, operation: Operation::Remove },
        ).with_grant_once(Grant { uid, resource_id, operation: Operation::Check })
    }

    /// The tables with the two resources that describe the system itself.
    pub open spec fn seeded(self) -> Tables {
        self.with_resource_once("resource"@).with_resource_once("operation"@)
    }

    /// Whether both of those resources are there.
    pub open spec fn is_seeded(self) -> bool {
        self.resource_id("resource"@) is Some && self.resource_id("operation"@) is Some
    }

    /// The seeded tables after `uid` was made administrator of both
    /// resources; only seeded if one of them could not be added.
    pub open spec fn bootstrapped(self, uid: i64) -> Tables {
        let seeded = self.seeded();
        if seeded.is_seeded() {
            seeded.with_admin(uid, seeded.resource_id("resource"@)->Some_0).with_admin(
                uid,
                seeded.resource_id("operation"@)->Some_0,
            )
        } else {
            seeded
        }
    }

    /// The rows of the join of grants and resources for `uid`: for each of
    /// the user's grants on a resource that is there, the resource's name
    /// and the operation's text.
    pub open spec fn joined(self, uid: int) -> Seq<(Seq<char>, Seq<char>)> {
        joined_rows(self.resources, self.grants, uid)
    }

    /// The tables without the grant rows that a revocation names.
    pub open spec fn without_grant(
        self,
        uid: i64,
        resource_id: i64,
        operation: Seq<char>,
    ) -> Tables {
        Tables {
            resources: self.resources,
            grants: grants_without(self.grants, uid, resource_id, operation),
            next_id: self.next_id,
        }
    }

    /// The tables without any grant on the resource `resource_id`.
    pub open spec fn without_grants_on(self, resource_id: i64) -> Tables {
        Tables {
            resources: self.resources,
            grants: grants_off(self.grants, resource_id),
            next_id: self.next_id,
        }
    }
}

/// The rows that a list of resources stands for.
pub open spec fn resource_rows(resources: Seq<Resource>) -> Seq<(i64, Seq<char>)> {
    Seq::new(resources.len(), |i: int| resources[i].row())
}

/// The store: both tables in memory. Statements change it in place.
pub struct AclStore {
    resources: Vec<Resource>,
    grants: Vec<Grant>,
    next_id: i64,
}

impl View for AclStore {
    type V = Tables;

    closed spec fn view(&self) -> Tables {
        Tables {
            resources: resource_rows(self.resources@),
            grants: self.grants@,
            next_id: self.next_id as int,
        }
    }
}

/// A name that `id_of` does not find is the name of no row.
pub proof fn lemma_id_of_none(rows: Seq<(i64, Seq<char>)>, name: Seq<char>)
    requires
        id_of(rows, name) is None,
    ensures
        forall|i: int| 0 <= i < rows.len() ==> (#[trigger] rows[i]).1 != name,
    decreases rows.len(),
{
    if rows.len() > 0 {
        lemma_id_of_none(rows.drop_last(), name);
        assert forall|i: int| 0 <= i < rows.len() implies (#[trigger] rows[i]).1 != name by {
            if i < rows.len() - 1 {
                assert(rows[i] == rows.drop_last()[i]);
            }
        }
    }
}

/// An id that `id_of` finds is the id of a row with that name.
pub proof fn lemma_id_of_some(rows: Seq<(i64, Seq<char>)>, name: Seq<char>)
    requires
        id_of(rows, name) is Some,
    ensures
        rows.contains((id_of(rows, name)->Some_0, name)),
    decreases rows.len(),
{
    if rows.last().1 == name {
        assert(rows[rows.len() - 1] == (id_of(rows, name)->Some_0, name));
    } else {
        lemma_id_of_some(rows.drop_last(), name);
        let i = choose|i: int|
            0 <= i < rows.drop_last().len() && rows.drop_last()[i] == (
                id_of(rows, name)->Some_0,
                name,
            );
        assert(rows[i] == rows.drop_last()[i]);
    }
}

impl AclStore {
    #[verifier::type_invariant]
    spec fn constrained(self) -> bool {
        self@.wf()
    }

    /// Takes the resource rows out and leaves none.
    fn take_resources(&mut self) -> (resources: Vec<Resource>)
        ensures
            resource_rows(resources@) == old(self)@.resources,
            final(self)@ == (Tables { resources: Seq::empty(), ..old(self)@ }),
    {
        proof {
            use_type_invariant(&*self);
        }
        let mut resources: Vec<Resource> = Vec::new();
        proof {
            assert(resource_rows(resources@) =~= Seq::empty());
        }
        core::mem::swap(&mut self.resources, &mut resources);
        resources
    }

    /// Takes the grant rows out and leaves none.
    fn take_grants(&mut self) -> (grants: Vec<Grant>)
        ensures
            grants@ == old(self)@.grants,
            final(self)@ == (Tables { grants: Seq::empty(), ..old(self)@ }),
    {
        proof {
            use_type_invariant(&*self);
        }
        let mut grants: Vec<Grant> = Vec::new();
        core::mem::swap(&mut self.grants, &mut grants);
        grants
    }

    /// A store with both tables empty.
    pub fn new() -> (store: AclStore)
        ensures
            store@ == Tables::empty(),
            store@.wf(),
    {
        let store = AclStore { resources: Vec::new(), grants: Vec::new(), next_id: 1 };
        assert(store@.resources =~= Seq::empty());
        store
    }

    /// A store with both tables empty whose first resource gets the id
    /// `first_id`; none if that is no id.
    pub fn starting_at(first_id: i64) -> (store: Option<AclStore>)
        ensures
            match store {
                Some(made) => first_id >= 1 && made@.wf() && made@ == (Tables {
                    resources: Seq::empty(),
                    grants: Seq::empty(),
                    next_id: first_id as int,
                }),
                None => first_id < 1,
            },
    {
        if first_id < 1 {
            return None;
        }
        let store = AclStore { resources: Vec::new(), grants: Vec::new(), next_id: first_id };
        assert(store@.resources =~= Seq::empty());
        Some(store)
    }

    fn lookup(&self, name: &str) -> (id: Option<i64>)
        ensures
            id == self@.resource_id(name@),
    {
        let mut i: usize = self.resources.len();
        proof {
            assert(self@.resources.take(i as int) =~= self@.resources);
        }
        while i > 0
            invariant
                i <= self.resources.len(),
                self@.resource_id(name@) == id_of(
                    resource_rows(self.resources@).take(i as int),
                    name@,
                ),
            decreases i,
        {
            let ghost rows = resource_rows(self.resources@).take(i as int);
            i -= 1;
            proof {
                assert(rows.drop_last() =~= resource_rows(self.resources@).take(i as int));
                assert(rows.last() == self.resources@[i as int].row());
            }
            if same_text(self.resources[i].name.as_str(), name) {
                return Some(self.resources[i].id);
            }
        }
        None
    }
}

/// Adds a resource called `name`, under the next id. A name that is there
/// already is refused as a duplicate, and the tables stay as they were.
pub fn add_resource(conn: &mut AclStore, name: &str) -> (added: Result<(), StorageError>)
    ensures
        final(conn)@.wf(),
        match added {
            Ok(_) => {
                &&& old(conn)@.resource_id(name@) is None
                &&& old(conn)@.next_id < i64::MAX
                &&& final(conn)@ == old(conn)@.with_resource(name@)
            },
            Err(e) => {
                &&& final(conn)@ == old(conn)@
                &&& e == StorageError::Duplicate <==> old(conn)@.resource_id(name@) is Some
                &&& e == StorageError::Exhausted <==> old(conn)@.resource_id(name@) is None
                &&& e == StorageError::Exhausted ==> old(conn)@.next_id == i64::MAX
            },
        },
{
    proof {
        use_type_invariant(&*conn);
    }
    if conn.lookup(name).is_some() {
        return Err(StorageError::Duplicate);
    }
    if conn.next_id == i64::MAX {
        return Err(StorageError::Exhausted);
    }
    let ghost before = conn@;
    let id = conn.next_id;
    let mut resources = conn.take_resources();
    resources.push(Resource { id, name: name.to_owned() });
    proof {
        assert(resource_rows(resources@) =~= before.resources.push((id, name@)));
        lemma_with_resource_wf(before, name@);
    }
    conn.next_id = id + 1;
    conn.resources = resources;
    Ok(())
}

/// A new name under the next id leaves the tables well-formed.
pub proof fn lemma_with_resource_wf(tables: Tables, name: Seq<char>)
    requires
        tables.wf(),
        tables.resource_id(name) is None,
        tables.next_id < i64::MAX,
    ensures
        tables.with_resource(name).wf(),
        tables.with_resource(name).resource_id(name) == Some(tables.next_id as i64),
        forall|other: Seq<char>|
            other != name ==> #[trigger] tables.with_resource(name).resource_id(other)
                == tables.resource_id(other),
{
    let before = tables.resources;
    let after = tables.with_resource(name).resources;
    lemma_id_of_none(before, name);
    assert(after.drop_last() =~= before);
    assert forall|i: int| 0 <= i < after.len() implies 1 <= (#[trigger] after[i]).0
        < tables.next_id + 1 by {
        if i < before.len() {
            assert(after[i] == before[i]);
        }
    }
    assert forall|i: int, j: int| 0 <= i < j < after.len() implies (#[trigger] after[i]).0 != (
    #[trigger] after[j]).0 by {
        assert(after[i] == before[i]);
        if j < before.len() {
            assert(after[j] == before[j]);
        }
    }
    assert forall|i: int, j: int| 0 <= i < j < after.len() implies (#[trigger] after[i]).1 != (
    #[trigger] after[j]).1 by {
        assert(after[i] == before[i]);
        if j < before.len() {
            assert(after[j] == before[j]);
        }
    }
}

/// Removes the resource called `name`, if there is one. Grants on it stay
/// until they are revoked.
pub fn remove_resource(conn: &mut AclStore, name: &str)
    ensures
        final(conn)@.wf(),
        final(conn)@ == old(conn)@.without_resource(name@),
{
    let ghost before = conn@;
    let ghost rows = before.resources;
    let mut kept: Vec<Resource> = Vec::new();
    let mut i: usize = 0;
    proof {
        use_type_invariant(&*conn);
        reveal(Seq::filter);
        assert(resource_rows(kept@) =~= rows_without(rows.take(0), name@));
    }
    while i < conn.resources.len()
        invariant
            i <= conn.resources.len(),
            conn@ == before,
            rows == resource_rows(conn.resources@),
            resource_rows(kept@) == rows_without(rows.take(i as int), name@),
        decreases conn.resources.len() - i,
    {
        let ghost prefix = rows.take(i as int);
        let ghost next = rows.take(i + 1);
        let ghost kept_before = kept@;
        proof {
            reveal(Seq::filter);
            assert(next.drop_last() =~= prefix);
            assert(next.last() == conn.resources@[i as int].row());
        }
        if !same_text(conn.resources[i].name.as_str(), name) {
            kept.push(conn.resources[i].duplicate());
            proof {
                assert(resource_rows(kept@) =~= resource_rows(kept_before).push(next.last()));
            }
        }
        i += 1;
    }
    proof {
        assert(rows.take(i as int) =~= rows);
        lemma_without_resource_wf(before, name@);
    }
    conn.resources = kept;
}

/// After the rows with a name are gone, the name has no id, and every other
/// name has the id it had.
pub proof fn lemma_without_name(rows: Seq<(i64, Seq<char>)>, name: Seq<char>)
    ensures
        id_of(rows_without(rows, name), name) is None,
        forall|other: Seq<char>|
            other != name ==> #[trigger] id_of(rows_without(rows, name), other) == id_of(
                rows,
                other,
            ),
    decreases rows.len(),
{
    reveal(Seq::filter);
    if rows.len() > 0 {
        lemma_without_name(rows.drop_last(), name);
        let inner = rows_without(rows.drop_last(), name);
        let left = rows_without(rows, name);
        if rows.last().1 != name {
            assert(left == inner.push(rows.last()));
            assert(left.drop_last() =~= inner);
            assert(left.last() == rows.last());
        } else {
            assert(left == inner);
        }
        assert forall|other: Seq<char>| other != name implies #[trigger] id_of(left, other)
            == id_of(rows, other) by {
            assert(id_of(inner, other) == id_of(rows.drop_last(), other));
        }
    }
}

/// Taking a resource out leaves the tables well-formed.
pub proof fn lemma_without_resource_wf(tables: Tables, name: Seq<char>)
    requires
        tables.wf(),
    ensures
        tables.without_resource(name).wf(),
        tables.without_resource(name).resource_id(name) is None,
        forall|other: Seq<char>|
            other != name ==> #[trigger] tables.without_resource(name).resource_id(other)
                == tables.resource_id(other),
{
    let rows = tables.resources;
    let left = rows_without(rows, name);
    lemma_filter_order(rows, named_otherwise(name));
    lemma_without_name(rows, name);
    assert forall|i: int| 0 <= i < left.len() implies 1 <= (#[trigger] left[i]).0
        < tables.next_id by {
        assert(rows.contains(left[i]));
    }
    assert forall|i: int, j: int| 0 <= i < j < left.len() implies (#[trigger] left[i]).0 != (
    #[trigger] left[j]).0 by {
        let (a, b) = choose|a: int, b: int|
            0 <= a < b < rows.len() && rows[a] == left[i] && rows[b] == left[j];
    }
    assert forall|i: int, j: int| 0 <= i < j < left.len() implies (#[trigger] left[i]).1 != (
    #[trigger] left[j]).1 by {
        let (a, b) = choose|a: int, b: int|
            0 <= a < b < rows.len() && rows[a] == left[i] && rows[b] == left[j];
    }
}

/// The id of the resource called `name`.
pub fn get_resource_id(conn: &AclStore, name: &str) -> (id: Result<i64, StorageError>)
    ensures
        match conn@.resource_id(name@) {
            Some(found) => id == Ok::<i64, StorageError>(found),
            None => id == Err::<i64, StorageError>(StorageError::NotFound),
        },
{
    match conn.lookup(name) {
        Some(id) => Ok(id),
        None => Err(StorageError::NotFound),
    }
}

/// Every resource, in the order of the rows.
pub fn get_all_resource(conn: &AclStore) -> (resources: Vec<Resource>)
    ensures
        resource_rows(resources@) == conn@.resources,
{
    let mut resources: Vec<Resource> = Vec::new();
    let mut i: usize = 0;
    while i < conn.resources.len()
        invariant
            i <= conn.resources.len(),
            resources@.len() == i,
            forall|k: int| 0 <= k < i ==> resources@[k] == conn.resources@[k],
        decreases conn.resources.len() - i,
    {
        resources.push(conn.resources[i].duplicate());
        i += 1;
    }
    proof {
        assert(resource_rows(resources@) =~= resource_rows(conn.resources@));
    }
    resources
}

/// Grants `uid` the operation on the resource `resource_id`. A row that is
/// there already is refused as a duplicate, and the tables stay as they were.
pub fn add_acl(conn: &mut AclStore, uid: i64, resource_id: i64, operation: &Operation) -> (added:
    Result<(), StorageError>)
    ensures
        final(conn)@.wf(),
        final(conn)@ == old(conn)@.with_grant_once(
            Grant { uid, resource_id, operation: *operation },
        ),
        added is Ok <==> !old(conn)@.grants.contains(
            Grant { uid, resource_id, operation: *operation },
        ),
        added matches Err(e) ==> e == StorageError::Duplicate,
{
    let grant = Grant { uid, resource_id, operation: *operation };
    let mut i: usize = 0;
    proof {
        use_type_invariant(&*conn);
    }
    while i < conn.grants.len()
        invariant
            i <= conn.grants.len(),
            conn@ == old(conn)@,
            conn@.wf(),
            grant == (Grant { uid, resource_id, operation: *operation }),
            forall|k: int| 0 <= k < i ==> conn.grants@[k] != grant,
        decreases conn.grants.len() - i,
    {
        if conn.grants[i] == grant {
            proof {
                assert(conn@.grants[i as int] == grant);
            }
            return Err(StorageError::Duplicate);
        }
        i += 1;
    }
    let mut grants = conn.take_grants();
    grants.push(grant);
    proof {
        assert(!old(conn)@.grants.contains(grant));
        lemma_with_grant_wf(old(conn)@, grant);
    }
    conn.grants = grants;
    Ok(())
}

/// A grant row that is not there yet leaves the tables well-formed when it
/// is added.
pub proof fn lemma_with_grant_wf(tables: Tables, grant: Grant)
    requires
        tables.wf(),
        !tables.grants.contains(grant),
    ensures
        tables.with_grant(grant).wf(),
{
    let after = tables.with_grant(grant).grants;
    assert forall|a: int, b: int| 0 <= a < b < after.len() implies #[trigger] after[a]
        != #[trigger] after[b] by {
        assert(after[a] == tables.grants[a]);
        if b < tables.grants.len() {
            assert(after[b] == tables.grants[b]);
        }
    }
}

/// Takes back what a revocation names: the rows of `uid` on `resource_id`
/// whose operation is stored under the text `operation`. Nothing happens if
/// there is none.
pub fn remove_acl(conn: &mut AclStore, uid: i64, resourceid: i64, operation: &str)
    ensures
        final(conn)@.wf(),
        final(conn)@ == old(conn)@.without_grant(uid, resourceid, operation@),
{
    let ghost before = conn@;
    let ghost keep = not_named(uid, resourceid, operation@);
    let mut kept: Vec<Grant> = Vec::new();
    let mut i: usize = 0;
    proof {
        use_type_invariant(&*conn);
        reveal(Seq::filter);
        assert(kept@ =~= before.grants.take(0).filter(keep));
    }
    while i < conn.grants.len()
        invariant
            i <= conn.grants.len(),
            conn@ == before,
            before.wf(),
            keep == not_named(uid, resourceid, operation@),
            kept@ == before.grants.take(i as int).filter(keep),
        decreases conn.grants.len() - i,
    {
        let grant = conn.grants[i];
        proof {
            reveal(Seq::filter);
            assert(before.grants.take(i + 1).drop_last() =~= before.grants.take(i as int));
        }
        let stored = grant.operation.to_string();
        if !(grant.uid == uid && grant.resource_id == resourceid && same_text(
            stored.as_str(),
            operation,
        )) {
            kept.push(grant);
        }
        i += 1;
    }
    proof {
        assert(before.grants.take(i as int) =~= before.grants);
        lemma_filter_distinct(before.grants, keep);
        assert((Tables { grants: kept@, ..before }).wf());
    }
    conn.grants = kept;
}

/// Takes back every grant on the resource `resource_id`.
pub fn remove_acl_by_resource_id(conn: &mut AclStore, resource_id: i64)
    ensures
        final(conn)@.wf(),
        final(conn)@ == old(conn)@.without_grants_on(resource_id),
{
    let ghost before = conn@;
    let ghost keep = on_another(resource_id);
    let mut kept: Vec<Grant> = Vec::new();
    let mut i: usize = 0;
    proof {
        use_type_invariant(&*conn);
        reveal(Seq::filter);
        assert(kept@ =~= before.grants.take(0).filter(keep));
    }
    while i < conn.grants.len()
        invariant
            i <= conn.grants.len(),
            conn@ == before,
            before.wf(),
            keep == on_another(resource_id),
            kept@ == before.grants.take(i as int).filter(keep),
        decreases conn.grants.len() - i,
    {
        let grant = conn.grants[i];
        proof {
            reveal(Seq::filter);
            assert(before.grants.take(i + 1).drop_last() =~= before.grants.take(i as int));
        }
        if grant.resource_id != resource_id {
            kept.push(grant);
        }
        i += 1;
    }
    proof {
        assert(before.grants.take(i as int) =~= before.grants);
        lemma_filter_distinct(before.grants, keep);
        assert((Tables { grants: kept@, ..before }).wf());
    }
    conn.grants = kept;
}

/// The operations granted to `uid` on the resource `resource_id`, in the
/// order of their rows; none if there is no such grant.
pub fn get_acl(conn: &AclStore, uid: u64, resource_id: i64) -> (operations: Vec<Operation>)
    ensures
        operations@ == conn@.operations(uid as int, resource_id),
{
    let ghost keep = held_by(uid as int, resource_id);
    let ghost pick = |g: Grant| g.operation;
    let mut operations: Vec<Operation> = Vec::new();
    let mut i: usize = 0;
    proof {
        reveal(Seq::filter);
        assert(operations@ =~= conn.grants@.take(0).filter(keep).map_values(pick));
    }
    while i < conn.grants.len()
        invariant
            i <= conn.grants.len(),
            keep == held_by(uid as int, resource_id),
            pick == |g: Grant| g.operation,
            operations@ == conn.grants@.take(i as int).filter(keep).map_values(pick),
        decreases conn.grants.len() - i,
    {
        let grant = conn.grants[i];
        let ghost held = conn.grants@.take(i as int).filter(keep);
        proof {
            reveal(Seq::filter);
            assert(conn.grants@.take(i + 1).drop_last() =~= conn.grants@.take(i as int));
        }
        if grant.uid >= 0 && grant.uid as u64 == uid && grant.resource_id == resource_id {
            operations.push(grant.operation);
            proof {
                assert(operations@ =~= held.push(grant).map_values(pick));
            }
        }
        i += 1;
    }
    proof {
        assert(conn.grants@.take(i as int) =~= conn.grants@);
        assert(operations@ =~= conn@.operations(uid as int, resource_id));
    }
    operations
}

/// An operation is among those granted to `uid` on a resource exactly if the
/// grant table holds the row.
pub proof fn lemma_operations_granted(
    tables: Tables,
    uid: int,
    resource_id: i64,
    operation: Operation,
)
    ensures
        tables.operations(uid, resource_id).contains(operation) <==> tables.granted(
            uid,
            resource_id,
            operation,
        ),
{
    let keep = held_by(uid, resource_id);
    let held = tables.grants.filter(keep);
    let operations = tables.operations(uid, resource_id);
    lemma_filter_order(tables.grants, keep);
    if operations.contains(operation) {
        let k = choose|k: int| 0 <= k < operations.len() && operations[k] == operation;
        tables.grants.lemma_filter_pred(keep, k);
        assert(tables.grants.contains(held[k]));
        let i = choose|i: int| 0 <= i < tables.grants.len() && tables.grants[i] == held[k];
        assert(grant_of(tables.grants[i], uid, resource_id));
    }
    if tables.granted(uid, resource_id, operation) {
        let i = choose|i: int|
            0 <= i < tables.grants.len() && grant_of(#[trigger] tables.grants[i], uid, resource_id)
                && tables.grants[i].operation == operation;
        tables.grants.lemma_filter_contains(keep, i);
        let k = choose|k: int| 0 <= k < held.len() && held[k] == tables.grants[i];
        assert(operations[k] == operation);
    }
}

impl AclStore {
    fn name_by_id(&self, id: i64) -> (name: Option<String>)
        ensures
            match name {
                Some(n) => name_of(self@.resources, id) == Some(n@),
                None => name_of(self@.resources, id) is None,
            },
    {
        let mut i: usize = self.resources.len();
        proof {
            assert(self@.resources.take(i as int) =~= self@.resources);
        }
        while i > 0
            invariant
                i <= self.resources.len(),
                name_of(self@.resources, id) == name_of(
                    resource_rows(self.resources@).take(i as int),
                    id,
                ),
            decreases i,
        {
            let ghost rows = resource_rows(self.resources@).take(i as int);
            i -= 1;
            proof {
                assert(rows.drop_last() =~= resource_rows(self.resources@).take(i as int));
                assert(rows.last() == self.resources@[i as int].row());
            }
            if self.resources[i].id == id {
                return Some(self.resources[i].name.clone());
            }
        }
        None
    }
}

/// Removes the resource called `name` and takes back every grant on its id,
/// so that no grant is left without its resource. Without such a resource
/// nothing happens.
pub fn remove_resource_and_acl(conn: &mut AclStore, name: &str) -> (removed: Result<
    i64,
    StorageError,
>)
    ensures
        final(conn)@.wf(),
        match old(conn)@.resource_id(name@) {
            Some(id) => removed == Ok::<i64, StorageError>(id) && final(conn)@ == old(
                conn,
            )@.without_resource(name@).without_grants_on(id),
            None => removed == Err::<i64, StorageError>(StorageError::NotFound) && final(conn)@
                == old(conn)@,
        },
{
    proof {
        use_type_invariant(&*conn);
    }
    let id = match get_resource_id(conn, name) {
        Ok(id) => id,
        Err(e) => { return Err(e); },
    };
    remove_resource(conn, name);
    remove_acl_by_resource_id(conn, id);
    Ok(id)
}

/// What an administrator holds on a resource: to add, to remove and to
/// check, in this order.
pub fn admin_operations() -> (operations: Vec<Operation>)
    ensures
        operations@ == seq![Operation::Add, Operation::Remove, Operation::Check],
{
    let mut operations: Vec<Operation> = Vec::new();
    operations.push(Operation::Add);
    operations.push(Operation::Remove);
    operations.push(Operation::Check);
    proof {
        assert(operations@ =~= seq![Operation::Add, Operation::Remove, Operation::Check]);
    }
    operations
}

/// Gives `uid` what an administrator holds on the resource called
/// `resource`: to add, to remove and to check. What is held already stays as
/// it is. Without such a resource nothing happens.
pub fn init_user_acl(conn: &mut AclStore, uid: i64, resource: &str) -> (done: Result<
    (),
    StorageError,
>)
    ensures
        final(conn)@.wf(),
        match old(conn)@.resource_id(resource@) {
            Some(id) => done is Ok && final(conn)@ == old(conn)@.with_admin(uid, id),
            None => done == Err::<(), StorageError>(StorageError::NotFound) && final(conn)@ == old(
                conn,
            )@,
        },
{
    proof {
        use_type_invariant(&*conn);
    }
    let id = match get_resource_id(conn, resource) {
        Ok(id) => id,
        Err(e) => { return Err(e); },
    };
    let _ = add_acl(conn, uid, id, &Operation::Add);
    let _ = add_acl(conn, uid, id, &Operation::Remove);
    let _ = add_acl(conn, uid, id, &Operation::Check);
    Ok(())
}

/// Seeds the two resources that describe the system itself and makes `uid`
/// administrator of both. What is there already stays as it is, so doing it
/// again changes nothing.
pub fn init_base_data_acl(conn: &mut AclStore, uid: i64) -> (done: Result<(), StorageError>)
    ensures
        final(conn)@.wf(),
        final(conn)@ == old(conn)@.bootstrapped(uid),
        done is Ok <==> old(conn)@.seeded().is_seeded(),
        done matches Err(e) ==> e == StorageError::NotFound,
{
    let resource = Resource::default();
    let operation = Operation::default();
    let _ = add_resource(conn, resource.as_str());
    let _ = add_resource(conn, operation.as_str());
    let resource_id = match get_resource_id(conn, resource.as_str()) {
        Ok(id) => id,
        Err(e) => { return Err(e); },
    };
    let operation_id = match get_resource_id(conn, operation.as_str()) {
        Ok(id) => id,
        Err(e) => { return Err(e); },
    };
    let _ = add_acl(conn, uid, resource_id, &Operation::Add);
    let _ = add_acl(conn, uid, resource_id, &Operation::Remove);
    let _ = add_acl(conn, uid, resource_id, &Operation::Check);
    let _ = add_acl(conn, uid, operation_id, &Operation::Add);
    let _ = add_acl(conn, uid, operation_id, &Operation::Remove);
    let _ = add_acl(conn, uid, operation_id, &Operation::Check);
    Ok(())
}

/// What `uid` may do, resource by resource: the join of the user's grants
/// with the resources, gathered under the resource names.
pub fn query_user_acl(conn: &AclStore, uid: u64) -> (list: Vec<ResourceOperations>)
    ensures
        entries(list@) == grouped(conn@.joined(uid as int)),
{
    let mut rows: Vec<(String, String)> = Vec::new();
    let mut i: usize = 0;
    proof {
        assert(row_texts(rows@) =~= joined_rows(conn@.resources, conn.grants@.take(0), uid as int));
    }
    while i < conn.grants.len()
        invariant
            i <= conn.grants.len(),
            row_texts(rows@) == joined_rows(
                conn@.resources,
                conn.grants@.take(i as int),
                uid as int,
            ),
        decreases conn.grants.len() - i,
    {
        let grant = conn.grants[i];
        let ghost before = rows@;
        proof {
            assert(conn.grants@.take(i + 1).drop_last() =~= conn.grants@.take(i as int));
            assert(conn.grants@.take(i + 1).last() == grant);
        }
        if grant.uid >= 0 && grant.uid as u64 == uid {
            match conn.name_by_id(grant.resource_id) {
                Some(name) => {
                    rows.push((name, grant.operation.to_string()));
                    proof {
                        assert(row_texts(rows@) =~= row_texts(before).push(
                            (name@, grant.operation.name()),
                        ));
                    }
                },
                None => {},
            }
        }
        i += 1;
    }
    proof {
        assert(conn.grants@.take(i as int) =~= conn.grants@);
    }
    group_user_acl(&rows)
}

} // verus!
