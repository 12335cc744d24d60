//! The closed vocabulary of operations that a grant may authorize.

use crate::text::same_text;
use vstd::prelude::*;

verus! {

/// An action on a resource. `Unknown` stands for every text that names none of
/// the four real operations; it is never a reason to allow anything.
#[derive(Debug, Clone, Copy, PartialEq, Eq, Structural)]
pub enum Operation {
    Add,
    Remove,
    Update,
    Check,
    Unknown,
}

impl Operation {
    /// The text under which the operation is stored and shown.
    pub open spec fn name(self) -> Seq<char> {
        match self {
            Operation::Add => "Add"@,
            Operation::Remove => "Remove"@,
            Operation::Update => "Update"@,
            Operation::Check => "Check"@,
            Operation::Unknown => "Null"@,
        }
    }

    /// The operation that a text names: an exact, case-sensitive match of one
    /// of the four real names, and `Unknown` for anything else.
    pub open spec fn parse(text: Seq<char>) -> Operation {
        if text == "Add"@ {
            Operation::Add
        } else if text == "Remove"@ {
            Operation::Remove
        } else if text == "Update"@ {
            Operation::Update
        } else if text == "Check"@ {
            Operation::Check
        } else {
            Operation::Unknown
        }
    }

    /// One of the four operations that a grant can really authorize.
    pub open spec fn is_real(self) -> bool {
        self != Operation::Unknown
    }

    pub fn to_string(&self) -> (text: String)
        ensures
            text@ == self.name(),
    {
        match self {
            Operation::Add => "Add".to_owned(),
            Operation::Remove => "Remove".to_owned(),
            Operation::Update => "Update".to_owned(),
            Operation::Check => "Check".to_owned(),
            Operation::Unknown => "Null".to_owned(),
        }
    }

    pub fn from_string(operation: &str) -> (parsed: Self)
        ensures
            parsed == Self::parse(operation@),
    {
        if same_text(operation, "Add") {
            Operation::Add
        } else if same_text(operation, "Remove") {
            Operation::Remove
        } else if same_text(operation, "Update") {
            Operation::Update
        } else if same_text(operation, "Check") {
            Operation::Check
        } else {
            Operation::Unknown
        }
    }

    /// Whether `operation` occurs in `operations`.
    pub fn get_operation(operations: Vec<Operation>, operation: &Operation) -> (found: bool)
        ensures
            found == operations@.contains(*operation),
    {
        let mut i: usize = 0;
        while i < operations.len()
            invariant
                i <= operations.len(),
                forall|j: int| 0 <= j < i ==> operations@[j] != *operation,
            decreases operations.len() - i,
        {
            if operations[i] == *operation {
                return true;
            }
            i += 1;
        }
        false
    }

    /// The name of the resource that stands for the operations themselves.
    pub fn default() -> (name: String)
        ensures
            name@ == "operation"@,
    {
        "operation".to_owned()
    }
}

/// The four real names are told apart from each other and from the name of
/// `Unknown`, so a real operation written out and read back is itself.
pub proof fn lemma_parse_name(op: Operation)
    requires
        op.is_real(),
    ensures
        Operation::parse(op.name()) == op,
{
    reveal_strlit("Add");
    reveal_strlit("Remove");
    reveal_strlit("Update");
    reveal_strlit("Check");
    if op == Operation::Remove {
        assert("Remove"@.len() != "Add"@.len());
    }
    if op == Operation::Update {
        assert("Update"@.len() != "Add"@.len());
        assert("Update"@[0] != "Remove"@[0]);
    }
    if op == Operation::Check {
        assert("Check"@.len() != "Add"@.len());
        assert("Check"@.len() != "Remove"@.len());
        assert("Check"@.len() != "Update"@.len());
    }
}

/// The text under which `Unknown` is stored names no real operation.
pub proof fn lemma_unknown_stays_unknown()
    ensures
        Operation::parse(Operation::Unknown.name()) == Operation::Unknown,
{
    reveal_strlit("Null");
    reveal_strlit("Add");
    reveal_strlit("Remove");
    reveal_strlit("Update");
    reveal_strlit("Check");
    assert("Null"@.len() == 4);
    assert("Add"@.len() == 3);
    assert("Remove"@.len() == 6);
    assert("Update"@.len() == 6);
    assert("Check"@.len() == 5);
}

/// No two operations are stored under the same text.
pub proof fn lemma_names_differ(first: Operation, second: Operation)
    requires
        first != second,
    ensures
        first.name() != second.name(),
{
    reveal_strlit("Null");
    reveal_strlit("Add");
    reveal_strlit("Remove");
    reveal_strlit("Update");
    reveal_strlit("Check");
    assert("Null"@.len() == 4);
    assert("Add"@.len() == 3);
    assert("Remove"@.len() == 6);
    assert("Update"@.len() == 6);
    assert("Check"@.len() == 5);
    assert("Remove"@[0] != "Update"@[0]);
}

/// Parsing never yields a real operation for a text that is not its name.
pub proof fn lemma_parse_only_names(text: Seq<char>)
    ensures
        Operation::parse(text).is_real() ==> Operation::parse(text).name() == text,
{
}

} // verus!
