//! What holds of every check, whatever the tables and the request.

use crate::acl::{access_outcome, decision, permitted, AclError};
use crate::filtered::lemma_filter_order;
use crate::key::InvalidCredential;
use crate::operation::{
    lemma_names_differ, lemma_parse_name, lemma_unknown_stays_unknown, Operation,
};
use crate::sql_acl::{
    grant_of, grants_off, id_of, joined_rows, lemma_id_of_none, lemma_id_of_some,
    lemma_operations_granted, lemma_with_resource_wf, lemma_without_name, name_of, on_another,
    Grant, Tables,
};
use vstd::prelude::*;

verus! {

/// A user without any grant on a resource is refused every operation on it
/// for want of permission, whatever the operation's text.
pub proof fn lemma_no_grant_no_access(
    tables: Tables,
    uid: u64,
    resource: Seq<char>,
    operation: Seq<char>,
)
    requires
        tables.resource_id(resource) is Some,
        forall|granted: Operation|
            !tables.granted(uid as int, tables.resource_id(resource)->Some_0, granted),
    ensures
        access_outcome(
            tables,
            Ok::<u64, InvalidCredential>(uid),
            resource,
            operation,
        ) == Err::<(), AclError>(AclError::InvalidPermission),
{
    let id = tables.resource_id(resource)->Some_0;
    lemma_operations_granted(tables, uid as int, id, Operation::parse(operation));
}

/// A grant row is in the table after it was added once exactly if it is the
/// new row or was there before.
pub proof fn lemma_granted_after_grant(
    tables: Tables,
    grant: Grant,
    uid: int,
    resource_id: i64,
    operation: Operation,
)
    ensures
        tables.with_grant_once(grant).granted(uid, resource_id, operation) <==> tables.granted(
            uid,
            resource_id,
            operation,
        ) || (grant_of(grant, uid, resource_id) && grant.operation == operation),
{
    let after = tables.with_grant_once(grant);
    if tables.granted(uid, resource_id, operation) {
        let i = choose|i: int|
            0 <= i < tables.grants.len() && grant_of(#[trigger] tables.grants[i], uid, resource_id)
                && tables.grants[i].operation == operation;
        assert(after.grants[i] == tables.grants[i]);
    }
    if grant_of(grant, uid, resource_id) && grant.operation == operation {
        if tables.grants.contains(grant) {
            let i = choose|i: int| 0 <= i < tables.grants.len() && tables.grants[i] == grant;
            assert(grant_of(after.grants[i], uid, resource_id));
        } else {
            assert(after.grants[tables.grants.len() as int] == grant);
        }
    }
    if after.granted(uid, resource_id, operation) {
        let i = choose|i: int|
            0 <= i < after.grants.len() && grant_of(#[trigger] after.grants[i], uid, resource_id)
                && after.grants[i].operation == operation;
        if i < tables.grants.len() {
            assert(after.grants[i] == tables.grants[i]);
        }
    }
}

/// Once a user is granted a real operation on a resource, a check for that
/// operation succeeds; a check for any other real operation that the user
/// was not granted is refused for want of permission.
pub proof fn lemma_grant_gives_access(
    tables: Tables,
    uid: u64,
    resource: Seq<char>,
    operation: Operation,
    other: Operation,
)
    requires
        tables.resource_id(resource) is Some,
        uid <= i64::MAX,
        operation.is_real(),
        other != operation,
        !tables.granted(uid as int, tables.resource_id(resource)->Some_0, other),
    ensures
        ({
            let grant = Grant {
                uid: uid as i64,
                resource_id: tables.resource_id(resource)->Some_0,
                operation,
            };
            let identity = Ok::<u64, InvalidCredential>(uid);
            &&& access_outcome(tables.with_grant_once(grant), identity, resource, operation.name())
                == Ok::<(), AclError>(())
            &&& access_outcome(tables.with_grant_once(grant), identity, resource, other.name())
                == Err::<(), AclError>(AclError::InvalidPermission)
        }),
{
    let id = tables.resource_id(resource)->Some_0;
    let grant = Grant { uid: uid as i64, resource_id: id, operation };
    let after = tables.with_grant_once(grant);
    lemma_parse_name(operation);
    lemma_granted_after_grant(tables, grant, uid as int, id, operation);
    lemma_operations_granted(after, uid as int, id, operation);
    if other.is_real() {
        lemma_parse_name(other);
    } else {
        lemma_unknown_stays_unknown();
    }
    lemma_granted_after_grant(tables, grant, uid as int, id, other);
    lemma_operations_granted(after, uid as int, id, Operation::parse(other.name()));
}

/// A text that names no real operation is never allowed, whatever the
/// caller holds: with a good credential and a known resource the check ends
/// for want of permission.
pub proof fn lemma_unknown_operation_denied(
    tables: Tables,
    identity: Result<u64, InvalidCredential>,
    resource: Seq<char>,
    operation: Seq<char>,
)
    requires
        !Operation::parse(operation).is_real(),
    ensures
        access_outcome(tables, identity, resource, operation) is Err,
        identity is Ok && tables.resource_id(resource) is Some ==> access_outcome(
            tables,
            identity,
            resource,
            operation,
        ) == Err::<(), AclError>(AclError::InvalidPermission),
        forall|granted: Seq<Operation>| #[trigger]
            decision(granted, operation) == Err::<(), AclError>(AclError::InvalidPermission),
{
}

/// The empty text and a text that is no operation's name name no real
/// operation.
pub proof fn lemma_strange_texts_unknown()
    ensures
        !Operation::parse(""@).is_real(),
        !Operation::parse("DROP TABLE"@).is_real(),
{
    reveal_strlit("");
    reveal_strlit("DROP TABLE");
    reveal_strlit("Add");
    reveal_strlit("Remove");
    reveal_strlit("Update");
    reveal_strlit("Check");
    assert(""@.len() == 0);
    assert("DROP TABLE"@.len() == 10);
}

/// After a resource was removed and the grants on its id were revoked, every
/// check on its name ends as not found, and no grant on the id is left.
pub proof fn lemma_removed_resource_not_found(
    tables: Tables,
    uid: u64,
    resource: Seq<char>,
    operation: Seq<char>,
)
    requires
        tables.resource_id(resource) is Some,
    ensures
        ({
            let id = tables.resource_id(resource)->Some_0;
            let after = tables.without_resource(resource).without_grants_on(id);
            &&& access_outcome(after, Ok::<u64, InvalidCredential>(uid), resource, operation)
                == Err::<(), AclError>(AclError::NotFound)
            &&& forall|uid: int, granted: Operation| !after.granted(uid, id, granted)
        }),
{
    let id = tables.resource_id(resource)->Some_0;
    let after = tables.without_resource(resource).without_grants_on(id);
    lemma_without_name(tables.resources, resource);
    assert forall|uid: int, granted: Operation| !after.granted(uid, id, granted) by {
        if after.granted(uid, id, granted) {
            let i = choose|i: int|
                0 <= i < after.grants.len() && grant_of(#[trigger] after.grants[i], uid, id)
                    && after.grants[i].operation == granted;
            tables.grants.lemma_filter_pred(on_another(id), i);
        }
    }
}

/// Removing a resource and revoking the grants on its id leaves every other
/// resource with its id and every grant on another resource in place.
pub proof fn lemma_removal_spares_others(
    tables: Tables,
    resource: Seq<char>,
    other: Seq<char>,
    uid: int,
    granted: Operation,
)
    requires
        tables.resource_id(resource) is Some,
        tables.resource_id(other) is Some,
        other != resource,
        tables.resource_id(other) != tables.resource_id(resource),
    ensures
        ({
            let id = tables.resource_id(resource)->Some_0;
            let after = tables.without_resource(resource).without_grants_on(id);
            let kept = tables.resource_id(other)->Some_0;
            &&& after.resource_id(other) == Some(kept)
            &&& after.granted(uid, kept, granted) <==> tables.granted(uid, kept, granted)
        }),
{
    let id = tables.resource_id(resource)->Some_0;
    let after = tables.without_resource(resource).without_grants_on(id);
    let kept = tables.resource_id(other)->Some_0;
    lemma_without_name(tables.resources, resource);
    lemma_filter_order(tables.grants, on_another(id));
    if after.granted(uid, kept, granted) {
        let i = choose|i: int|
            0 <= i < after.grants.len() && grant_of(#[trigger] after.grants[i], uid, kept)
                && after.grants[i].operation == granted;
        assert(tables.grants.contains(after.grants[i]));
        let k = choose|k: int| 0 <= k < tables.grants.len() && tables.grants[k] == after.grants[i];
        assert(grant_of(tables.grants[k], uid, kept));
    }
    if tables.granted(uid, kept, granted) {
        let k = choose|k: int|
            0 <= k < tables.grants.len() && grant_of(#[trigger] tables.grants[k], uid, kept)
                && tables.grants[k].operation == granted;
        tables.grants.lemma_filter_contains(on_another(id), k);
        let i = choose|i: int|
            0 <= i < grants_off(tables.grants, id).len() && grants_off(tables.grants, id)[i]
                == tables.grants[k];
        assert(grant_of(after.grants[i], uid, kept));
    }
}

/// A grant list that holds nothing but `Unknown` allows no operation.
pub proof fn lemma_unknown_grants_nothing(granted: Seq<Operation>, requested: Operation)
    requires
        forall|i: int| 0 <= i < granted.len() ==> granted[i] == Operation::Unknown,
    ensures
        !permitted(granted, requested),
{
}

/// Whether `uid` holds on the resource `resource_id` what an administrator
/// holds: to add, to remove and to check.
pub open spec fn is_admin_of(tables: Tables, uid: i64, resource_id: i64) -> bool {
    &&& tables.granted(uid as int, resource_id, Operation::Add)
    &&& tables.granted(uid as int, resource_id, Operation::Remove)
    &&& tables.granted(uid as int, resource_id, Operation::Check)
}

/// Making a user administrator of a resource gives the three operations,
/// takes nothing away and gives nothing else.
pub proof fn lemma_with_admin(
    tables: Tables,
    uid: i64,
    resource_id: i64,
    holder: int,
    on: i64,
    operation: Operation,
)
    ensures
        tables.with_admin(uid, resource_id).resources == tables.resources,
        tables.with_admin(uid, resource_id).next_id == tables.next_id,
        is_admin_of(tables.with_admin(uid, resource_id), uid, resource_id),
        tables.with_admin(uid, resource_id).granted(holder, on, operation) <==> tables.granted(
            holder,
            on,
            operation,
        ) || (holder == uid && on == resource_id && (operation == Operation::Add || operation
            == Operation::Remove || operation == Operation::Check)),
{
    let add = Grant { uid, resource_id, operation: Operation::Add };
    let remove = Grant { uid, resource_id, operation: Operation::Remove };
    let check = Grant { uid, resource_id, operation: Operation::Check };
    let first = tables.with_grant_once(add);
    let second = first.with_grant_once(remove);
    lemma_granted_after_grant(tables, add, holder, on, operation);
    lemma_granted_after_grant(first, remove, holder, on, operation);
    lemma_granted_after_grant(second, check, holder, on, operation);
    lemma_granted_after_grant(tables, add, uid as int, resource_id, Operation::Add);
    lemma_granted_after_grant(first, remove, uid as int, resource_id, Operation::Add);
    lemma_granted_after_grant(second, check, uid as int, resource_id, Operation::Add);
    lemma_granted_after_grant(first, remove, uid as int, resource_id, Operation::Remove);
    lemma_granted_after_grant(second, check, uid as int, resource_id, Operation::Remove);
    lemma_granted_after_grant(second, check, uid as int, resource_id, Operation::Check);
}

/// After the bootstrap the administrator may add, remove and check on the
/// resource that stands for the catalog, and may update only if that was
/// granted before.
pub proof fn lemma_bootstrap_gives_admin(tables: Tables, uid: u64)
    requires
        tables.seeded().is_seeded(),
        uid <= i64::MAX,
    ensures
        ({
            let after = tables.bootstrapped(uid as i64);
            let identity = Ok::<u64, InvalidCredential>(uid);
            let id = tables.seeded().resource_id("resource"@)->Some_0;
            &&& access_outcome(after, identity, "resource"@, "Add"@) == Ok::<(), AclError>(())
            &&& access_outcome(after, identity, "resource"@, "Remove"@) == Ok::<(), AclError>(())
            &&& access_outcome(after, identity, "resource"@, "Check"@) == Ok::<(), AclError>(())
            &&& !tables.granted(uid as int, id, Operation::Update) ==> access_outcome(
                after,
                identity,
                "resource"@,
                "Update"@,
            ) == Err::<(), AclError>(AclError::InvalidPermission)
        }),
{
    let admin = uid as i64;
    let seeded = tables.seeded();
    let id = seeded.resource_id("resource"@)->Some_0;
    let other = seeded.resource_id("operation"@)->Some_0;
    let first = seeded.with_admin(admin, id);
    let after = first.with_admin(admin, other);
    assert(seeded.grants == tables.grants);
    lemma_parse_name(Operation::Add);
    lemma_parse_name(Operation::Remove);
    lemma_parse_name(Operation::Check);
    lemma_parse_name(Operation::Update);
    lemma_with_admin(seeded, admin, id, uid as int, id, Operation::Add);
    lemma_with_admin(first, admin, other, uid as int, id, Operation::Add);
    lemma_with_admin(first, admin, other, uid as int, id, Operation::Remove);
    lemma_with_admin(first, admin, other, uid as int, id, Operation::Check);
    lemma_with_admin(seeded, admin, id, uid as int, id, Operation::Update);
    lemma_with_admin(first, admin, other, uid as int, id, Operation::Update);
    lemma_operations_granted(after, uid as int, id, Operation::Add);
    lemma_operations_granted(after, uid as int, id, Operation::Remove);
    lemma_operations_granted(after, uid as int, id, Operation::Check);
    lemma_operations_granted(after, uid as int, id, Operation::Update);
}

/// A grant that was added once is there, and adding it once more changes
/// nothing.
pub proof fn lemma_grant_once_again(tables: Tables, grant: Grant)
    ensures
        tables.with_grant_once(grant).grants.contains(grant),
        tables.with_grant_once(grant).with_grant_once(grant) == tables.with_grant_once(grant),
        forall|other: Grant|
            tables.grants.contains(other) ==> #[trigger] tables.with_grant_once(
                grant,
            ).grants.contains(other),
{
    let after = tables.with_grant_once(grant);
    if tables.grants.contains(grant) {
    } else {
        assert(after.grants[tables.grants.len() as int] == grant);
    }
    assert forall|other: Grant| tables.grants.contains(other) implies #[trigger] after.grants
        .contains(other) by {
        let i = choose|i: int| 0 <= i < tables.grants.len() && tables.grants[i] == other;
        assert(after.grants[i] == other);
    }
}

/// Making a user administrator of a resource a second time changes nothing.
pub proof fn lemma_admin_again(tables: Tables, uid: i64, resource_id: i64)
    ensures
        tables.with_admin(uid, resource_id).with_admin(uid, resource_id) == tables.with_admin(
            uid,
            resource_id,
        ),
        forall|other: Grant|
            tables.grants.contains(other) ==> #[trigger] tables.with_admin(
                uid,
                resource_id,
            ).grants.contains(other),
{
    let add = Grant { uid, resource_id, operation: Operation::Add };
    let remove = Grant { uid, resource_id, operation: Operation::Remove };
    let check = Grant { uid, resource_id, operation: Operation::Check };
    let first = tables.with_grant_once(add);
    let second = first.with_grant_once(remove);
    let third = second.with_grant_once(check);
    lemma_grant_once_again(tables, add);
    lemma_grant_once_again(first, remove);
    lemma_grant_once_again(second, check);
    assert(third.grants.contains(add));
    assert(third.grants.contains(remove));
    assert(third.grants.contains(check));
    assert(third.with_grant_once(add) == third);
    assert(third.with_grant_once(remove) == third);
    assert(third.with_grant_once(check) == third);
    assert forall|other: Grant| tables.grants.contains(other) implies #[trigger] third.grants
        .contains(other) by {
        assert(first.grants.contains(other));
        assert(second.grants.contains(other));
    }
}

/// A resource that was added unless it was there is there afterwards, or no
/// id was left; adding it once more changes nothing, and no other name
/// loses its id.
pub proof fn lemma_resource_once_again(tables: Tables, name: Seq<char>)
    requires
        tables.wf(),
    ensures
        tables.with_resource_once(name).wf(),
        tables.with_resource_once(name).with_resource_once(name) == tables.with_resource_once(
            name,
        ),
        tables.with_resource_once(name).resource_id(name) is None ==> tables.with_resource_once(
            name,
        ).next_id >= i64::MAX,
        tables.with_resource_once(name).next_id >= tables.next_id,
        forall|other: Seq<char>|
            tables.resource_id(other) is Some ==> #[trigger] tables.with_resource_once(
                name,
            ).resource_id(other) == tables.resource_id(other),
{
    if tables.resource_id(name) is None && tables.next_id < i64::MAX {
        lemma_with_resource_wf(tables, name);
    }
}

/// The bootstrap can be repeated: a second run finds everything in place
/// and changes nothing.
pub proof fn lemma_bootstrap_again(tables: Tables, uid: i64)
    requires
        tables.wf(),
    ensures
        tables.bootstrapped(uid).bootstrapped(uid) == tables.bootstrapped(uid),
{
    let first = tables.with_resource_once("resource"@);
    let seeded = tables.seeded();
    let done = tables.bootstrapped(uid);
    lemma_resource_once_again(tables, "resource"@);
    lemma_resource_once_again(first, "operation"@);
    assert(done.resources == seeded.resources && done.next_id == seeded.next_id) by {
        if seeded.is_seeded() {
            let id = seeded.resource_id("resource"@)->Some_0;
            let other = seeded.resource_id("operation"@)->Some_0;
            lemma_with_admin(seeded, uid, id, 0, 0, Operation::Add);
            lemma_with_admin(seeded.with_admin(uid, id), uid, other, 0, 0, Operation::Add);
        }
    }
    assert(done.with_resource_once("resource"@) == done);
    assert(done.seeded() == done);
    if seeded.is_seeded() {
        let id = seeded.resource_id("resource"@)->Some_0;
        let other = seeded.resource_id("operation"@)->Some_0;
        let half = seeded.with_admin(uid, id);
        lemma_admin_again(seeded, uid, id);
        lemma_admin_again(half, uid, other);
        let add = Grant { uid, resource_id: id, operation: Operation::Add };
        let remove = Grant { uid, resource_id: id, operation: Operation::Remove };
        let check = Grant { uid, resource_id: id, operation: Operation::Check };
        lemma_grant_once_again(seeded, add);
        lemma_grant_once_again(seeded.with_grant_once(add), remove);
        lemma_grant_once_again(seeded.with_grant_once(add).with_grant_once(remove), check);
        assert(half.grants.contains(add));
        assert(half.grants.contains(remove));
        assert(half.grants.contains(check));
        assert(done.grants.contains(add));
        assert(done.grants.contains(remove));
        assert(done.grants.contains(check));
        assert(done.with_admin(uid, id) == done);
        assert(done.with_admin(uid, other) == done);
    }
}

/// Where no name stands twice, the id of a name is the id of the row with
/// that name.
pub proof fn lemma_id_of_row(rows: Seq<(i64, Seq<char>)>, id: i64, name: Seq<char>)
    requires
        forall|i: int, j: int|
            0 <= i < j < rows.len() ==> (#[trigger] rows[i]).1 != (#[trigger] rows[j]).1,
    ensures
        id_of(rows, name) == Some(id) <==> rows.contains((id, name)),
{
    if id_of(rows, name) is Some {
        lemma_id_of_some(rows, name);
        if rows.contains((id, name)) {
            let found = id_of(rows, name)->Some_0;
            let a = choose|a: int| 0 <= a < rows.len() && rows[a] == (found, name);
            let b = choose|b: int| 0 <= b < rows.len() && rows[b] == (id, name);
            assert(a == b);
        }
    } else {
        lemma_id_of_none(rows, name);
    }
}

/// Where no id stands twice, the name of an id is the name of the row with
/// that id.
pub proof fn lemma_name_of_row(rows: Seq<(i64, Seq<char>)>, id: i64, name: Seq<char>)
    requires
        forall|i: int, j: int|
            0 <= i < j < rows.len() ==> (#[trigger] rows[i]).0 != (#[trigger] rows[j]).0,
    ensures
        name_of(rows, id) == Some(name) <==> rows.contains((id, name)),
    decreases rows.len(),
{
    if rows.len() > 0 {
        let shorter = rows.drop_last();
        assert forall|i: int, j: int| 0 <= i < j < shorter.len() implies (
        #[trigger] shorter[i]).0 != (#[trigger] shorter[j]).0 by {
            assert(shorter[i] == rows[i] && shorter[j] == rows[j]);
        }
        lemma_name_of_row(shorter, id, name);
        if rows.contains((id, name)) {
            let k = choose|k: int| 0 <= k < rows.len() && rows[k] == (id, name);
            if k < shorter.len() {
                assert(shorter[k] == (id, name));
                assert(rows[k].0 != rows[rows.len() - 1].0);
            }
        }
        if name_of(rows, id) == Some(name) {
            if rows.last().0 == id {
                assert(rows[rows.len() - 1] == (id, name));
            } else {
                let k = choose|k: int| 0 <= k < shorter.len() && shorter[k] == (id, name);
                assert(rows[k] == (id, name));
            }
        }
    }
}

/// A row is in the join for a user exactly if one of the user's grants is
/// on a resource of that name, for the operation of that text.
pub proof fn lemma_joined_rows(
    resources: Seq<(i64, Seq<char>)>,
    grants: Seq<Grant>,
    uid: int,
    name: Seq<char>,
    text: Seq<char>,
)
    ensures
        joined_rows(resources, grants, uid).contains((name, text)) <==> exists|i: int|
            0 <= i < grants.len() && (#[trigger] grants[i]).uid == uid && name_of(
                resources,
                grants[i].resource_id,
            ) == Some(name) && grants[i].operation.name() == text,
    decreases grants.len(),
{
    let rows = joined_rows(resources, grants, uid);
    if grants.len() > 0 {
        let shorter = grants.drop_last();
        let before = joined_rows(resources, shorter, uid);
        let last = grants.last();
        lemma_joined_rows(resources, shorter, uid, name, text);
        let added = last.uid == uid && name_of(resources, last.resource_id) is Some;
        if rows.contains((name, text)) {
            let k = choose|k: int| 0 <= k < rows.len() && rows[k] == (name, text);
            if k < before.len() {
                assert(before[k] == (name, text));
                let i = choose|i: int|
                    0 <= i < shorter.len() && (#[trigger] shorter[i]).uid == uid && name_of(
                        resources,
                        shorter[i].resource_id,
                    ) == Some(name) && shorter[i].operation.name() == text;
                assert(grants[i] == shorter[i]);
            } else {
                assert(grants[grants.len() - 1] == last);
            }
        }
        if exists|i: int|
            0 <= i < grants.len() && (#[trigger] grants[i]).uid == uid && name_of(
                resources,
                grants[i].resource_id,
            ) == Some(name) && grants[i].operation.name() == text {
            let i = choose|i: int|
                0 <= i < grants.len() && (#[trigger] grants[i]).uid == uid && name_of(
                    resources,
                    grants[i].resource_id,
                ) == Some(name) && grants[i].operation.name() == text;
            if i < shorter.len() {
                assert(shorter[i] == grants[i]);
                let k = choose|k: int| 0 <= k < before.len() && before[k] == (name, text);
                assert(rows[k] == (name, text));
            } else {
                assert(rows[rows.len() - 1] == (name, text));
            }
        }
    }
}

/// What the listing of a user's grants shows is what a check allows: a real
/// operation on a resource is allowed exactly if the join for the user
/// holds the row of the resource's name and the operation's text.
pub proof fn lemma_listing_agrees_with_check(
    tables: Tables,
    uid: u64,
    resource: Seq<char>,
    operation: Operation,
)
    requires
        tables.wf(),
        operation.is_real(),
    ensures
        access_outcome(
            tables,
            Ok::<u64, InvalidCredential>(uid),
            resource,
            operation.name(),
        ) == Ok::<(), AclError>(()) <==> tables.joined(uid as int).contains(
            (resource, operation.name()),
        ),
{
    let rows = tables.resources;
    let grants = tables.grants;
    lemma_parse_name(operation);
    lemma_joined_rows(rows, grants, uid as int, resource, operation.name());
    if tables.resource_id(resource) is Some {
        let id = tables.resource_id(resource)->Some_0;
        lemma_operations_granted(tables, uid as int, id, operation);
        lemma_id_of_row(rows, id, resource);
        lemma_name_of_row(rows, id, resource);
        if tables.granted(uid as int, id, operation) {
            let i = choose|i: int|
                0 <= i < grants.len() && grant_of(#[trigger] grants[i], uid as int, id)
                    && grants[i].operation == operation;
            assert(grants[i].uid == uid && name_of(rows, grants[i].resource_id) == Some(resource));
        }
    }
    if tables.joined(uid as int).contains((resource, operation.name())) {
        let i = choose|i: int|
            0 <= i < grants.len() && (#[trigger] grants[i]).uid == uid as int && name_of(
                rows,
                grants[i].resource_id,
            ) == Some(resource) && grants[i].operation.name() == operation.name();
        let id = grants[i].resource_id;
        lemma_name_of_row(rows, id, resource);
        lemma_id_of_row(rows, id, resource);
        if grants[i].operation != operation {
            lemma_names_differ(grants[i].operation, operation);
        }
        assert(grant_of(grants[i], uid as int, id));
        lemma_operations_granted(tables, uid as int, id, operation);
    }
}

} // verus!
