//! What a user may do, resource by resource: the rows of a join of grants
//! and resources, gathered under the resource names.

use crate::text::{listed, same_text, texts};
use vstd::prelude::*;

verus! {

/// A resource and the operations that a user holds on it, as texts.
#[derive(Debug)]
pub struct ResourceOperations {
    pub resource: String,
    pub operations: Vec<String>,
}

/// The texts of a list of rows, each a resource name and an operation.
pub open spec fn row_texts(rows: Seq<(String, String)>) -> Seq<(Seq<char>, Seq<char>)> {
    Seq::new(rows.len(), |i: int| (rows[i].0@, rows[i].1@))
}

impl ResourceOperations {
    /// The entry as texts.
    pub open spec fn entry(self) -> (Seq<char>, Seq<Seq<char>>) {
        (self.resource@, texts(self.operations@))
    }
}

/// The entries of a list as texts.
pub open spec fn entries(list: Seq<ResourceOperations>) -> Seq<(Seq<char>, Seq<Seq<char>>)> {
    Seq::new(list.len(), |i: int| list[i].entry())
}

/// The resource names of the rows, each once, in the order in which they
/// first occur.
pub open spec fn first_names(rows: Seq<(Seq<char>, Seq<char>)>) -> Seq<Seq<char>>
    decreases rows.len(),
{
    if rows.len() == 0 {
        Seq::empty()
    } else {
        let before = first_names(rows.drop_last());
        if before.contains(rows.last().0) {
            before
        } else {
            before.push(rows.last().0)
        }
    }
}

/// The operations of the rows under the resource `name`, in the order of the
/// rows.
pub open spec fn operations_under(rows: Seq<(Seq<char>, Seq<char>)>, name: Seq<char>) -> Seq<
    Seq<char>,
>
    decreases rows.len(),
{
    if rows.len() == 0 {
        Seq::empty()
    } else {
        let before = operations_under(rows.drop_last(), name);
        if rows.last().0 == name {
            before.push(rows.last().1)
        } else {
            before
        }
    }
}

/// The rows gathered by resource: one entry for each name, in the order in
/// which the names first occur, with the operations under it in the order of
/// the rows.
pub open spec fn grouped(rows: Seq<(Seq<char>, Seq<char>)>) -> Seq<(Seq<char>, Seq<Seq<char>>)> {
    Seq::new(
        first_names(rows).len(),
        |i: int| (first_names(rows)[i], operations_under(rows, first_names(rows)[i])),
    )
}

/// The resource names of the rows, each once, in the order of first
/// occurrence.
fn names_in_order(rows: &Vec<(String, String)>) -> (names: Vec<String>)
    ensures
        texts(names@) == first_names(row_texts(rows@)),
{
    let mut names: Vec<String> = Vec::new();
    let mut i: usize = 0;
    proof {
        assert(texts(names@) =~= first_names(row_texts(rows@).take(0)));
    }
    while i < rows.len()
        invariant
            i <= rows.len(),
            texts(names@) == first_names(row_texts(rows@).take(i as int)),
        decreases rows.len() - i,
    {
        let ghost next = row_texts(rows@).take(i + 1);
        let ghost names_before = names@;
        proof {
            assert(next.drop_last() =~= row_texts(rows@).take(i as int));
            assert(next.last().0 == rows@[i as int].0@);
        }
        if !listed(&names, rows[i].0.as_str()) {
            names.push(rows[i].0.clone());
            proof {
                assert(texts(names@) =~= texts(names_before).push(next.last().0));
            }
        }
        i += 1;
    }
    proof {
        assert(row_texts(rows@).take(i as int) =~= row_texts(rows@));
    }
    names
}

/// The operations of the rows under the resource `name`.
fn operations_for(rows: &Vec<(String, String)>, name: &str) -> (operations: Vec<String>)
    ensures
        texts(operations@) == operations_under(row_texts(rows@), name@),
{
    let mut operations: Vec<String> = Vec::new();
    let mut i: usize = 0;
    proof {
        assert(texts(operations@) =~= operations_under(row_texts(rows@).take(0), name@));
    }
    while i < rows.len()
        invariant
            i <= rows.len(),
            texts(operations@) == operations_under(row_texts(rows@).take(i as int), name@),
        decreases rows.len() - i,
    {
        let ghost next = row_texts(rows@).take(i + 1);
        let ghost before = operations@;
        proof {
            assert(next.drop_last() =~= row_texts(rows@).take(i as int));
            assert(next.last() == (rows@[i as int].0@, rows@[i as int].1@));
        }
        if same_text(rows[i].0.as_str(), name) {
            operations.push(rows[i].1.clone());
            proof {
                assert(texts(operations@) =~= texts(before).push(next.last().1));
            }
        }
        i += 1;
    }
    proof {
        assert(row_texts(rows@).take(i as int) =~= row_texts(rows@));
    }
    operations
}

/// Gathers the rows of a join of grants and resources, each a resource name
/// and an operation, under the resource names.
pub fn group_user_acl(rows: &Vec<(String, String)>) -> (list: Vec<ResourceOperations>)
    ensures
        entries(list@) == grouped(row_texts(rows@)),
{
    let names = names_in_order(rows);
    let mut list: Vec<ResourceOperations> = Vec::new();
    let mut i: usize = 0;
    while i < names.len()
        invariant
            i <= names.len(),
            texts(names@) == first_names(row_texts(rows@)),
            list@.len() == i,
            forall|k: int|
                0 <= k < i ==> (#[trigger] list@[k]).entry() == (
                    texts(names@)[k],
                    operations_under(row_texts(rows@), texts(names@)[k]),
                ),
        decreases names.len() - i,
    {
        let operations = operations_for(rows, names[i].as_str());
        list.push(ResourceOperations { resource: names[i].clone(), operations });
        i += 1;
    }
    proof {
        assert(entries(list@) =~= grouped(row_texts(rows@)));
    }
    list
}

/// Every row is found again in the entry of its resource, and every
/// operation of an entry comes from a row of that resource.
pub proof fn lemma_grouped_holds_rows(
    rows: Seq<(Seq<char>, Seq<char>)>,
    name: Seq<char>,
    operation: Seq<char>,
)
    ensures
        rows.contains((name, operation)) <==> first_names(rows).contains(name) && operations_under(
            rows,
            name,
        ).contains(operation),
    decreases rows.len(),
{
    if rows.len() > 0 {
        let shorter = rows.drop_last();
        lemma_grouped_holds_rows(shorter, name, operation);
        let names = first_names(shorter);
        let under = operations_under(shorter, name);
        if rows.contains((name, operation)) {
            let k = choose|k: int| 0 <= k < rows.len() && rows[k] == (name, operation);
            if k < shorter.len() {
                assert(shorter[k] == rows[k]);
                let a = choose|a: int| 0 <= a < names.len() && names[a] == name;
                assert(first_names(rows)[a] == name);
                let b = choose|b: int| 0 <= b < under.len() && under[b] == operation;
                assert(operations_under(rows, name)[b] == operation);
            } else {
                assert(operations_under(rows, name).last() == operation);
                if names.contains(name) {
                } else {
                    assert(first_names(rows).last() == name);
                }
            }
        }
        if first_names(rows).contains(name) && operations_under(rows, name).contains(operation) {
            let b = choose|b: int|
                0 <= b < operations_under(rows, name).len() && operations_under(rows, name)[b]
                    == operation;
            if b < under.len() {
                assert(under[b] == operation);
                lemma_under_needs_name(shorter, name);
                let k = choose|k: int| 0 <= k < shorter.len() && shorter[k] == (name, operation);
                assert(rows[k] == (name, operation));
            } else {
                assert(rows[rows.len() - 1] == (name, operation));
            }
        }
    }
}

/// A resource with an operation under it is one of the names.
pub proof fn lemma_under_needs_name(rows: Seq<(Seq<char>, Seq<char>)>, name: Seq<char>)
    ensures
        operations_under(rows, name).len() > 0 ==> first_names(rows).contains(name),
    decreases rows.len(),
{
    if rows.len() > 0 {
        let shorter = rows.drop_last();
        lemma_under_needs_name(shorter, name);
        let names = first_names(shorter);
        if names.contains(name) {
            let a = choose|a: int| 0 <= a < names.len() && names[a] == name;
            assert(first_names(rows)[a] == name);
        } else if rows.last().0 == name {
            assert(first_names(rows).last() == name);
        }
    }
}

/// No resource name occurs twice among the entries.
pub proof fn lemma_first_names_distinct(rows: Seq<(Seq<char>, Seq<char>)>)
    ensures
        forall|i: int, j: int|
            0 <= i < j < first_names(rows).len() ==> first_names(rows)[i] != first_names(rows)[j],
    decreases rows.len(),
{
    if rows.len() > 0 {
        lemma_first_names_distinct(rows.drop_last());
        let before = first_names(rows.drop_last());
        let names = first_names(rows);
        assert forall|i: int, j: int| 0 <= i < j < names.len() implies names[i] != names[j] by {
            assert(names[i] == before[i]);
            if j < before.len() {
                assert(names[j] == before[j]);
            } else {
                assert(!before.contains(rows.last().0));
            }
        }
    }
}

} // verus!
