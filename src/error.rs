//! Errors of interface validation.
use vstd::prelude::*;

verus! {

/// Why a program's declared instructions do not implement its interfaces.
#[derive(Debug, Clone)]
pub enum SplInterfaceError {
    /// A declaration could not be read into a descriptor: its `interface`
    /// annotation is malformed, or an argument type is outside the
    /// supported kinds.
    ParseError,
    /// A declared instruction names an interface the registry lacks.
    InvalidInterfaceNamespace { interface_namespace: String },
    /// A declared instruction matches no still-unmatched requirement of its
    /// interface.
    InstructionNotFound { interface_namespace: String, instruction_namespace: String },
    /// Required instructions of claimed interfaces were never declared, as
    /// (interface namespace, instruction namespace) pairs.
    InstructionMissing { missing: Vec<(String, String)> },
    /// An instruction has an incorrect number of arguments.
    InstructionIncorrectNumberOfArgs,
    /// An instruction has an argument of an incorrect type.
    InstructionIncorrectArgType,
}

/// The mathematical value of an `SplInterfaceError`.
pub enum InterfaceErrorView {
    ParseError,
    InvalidInterfaceNamespace(Seq<char>),
    InstructionNotFound(Seq<char>, Seq<char>),
    InstructionMissing(Seq<(Seq<char>, Seq<char>)>),
    InstructionIncorrectNumberOfArgs,
    InstructionIncorrectArgType,
}

/// The views of a list of namespace pairs.
pub open spec fn pair_views(s: Seq<(String, String)>) -> Seq<(Seq<char>, Seq<char>)> {
    s.map_values(|p: (String, String)| (p.0@, p.1@))
}

impl View for SplInterfaceError {
    type V = InterfaceErrorView;

    open spec fn view(&self) -> InterfaceErrorView {
        match self {
            SplInterfaceError::ParseError => InterfaceErrorView::ParseError,
            SplInterfaceError::InvalidInterfaceNamespace { interface_namespace } => {
                InterfaceErrorView::InvalidInterfaceNamespace(interface_namespace@)
            },
            SplInterfaceError::InstructionNotFound { interface_namespace, instruction_namespace } => {
                InterfaceErrorView::InstructionNotFound(interface_namespace@, instruction_namespace@)
            },
            SplInterfaceError::InstructionMissing { missing } => InterfaceErrorView::InstructionMissing(
                pair_views(missing@),
            ),
            SplInterfaceError::InstructionIncorrectNumberOfArgs => InterfaceErrorView::InstructionIncorrectNumberOfArgs,
            SplInterfaceError::InstructionIncorrectArgType => InterfaceErrorView::InstructionIncorrectArgType,
        }
    }
}

/// The value of a validation result.
pub open spec fn outcome(r: Result<(), SplInterfaceError>) -> Result<(), InterfaceErrorView> {
    match r {
        Ok(()) => Ok(()),
        Err(e) => Err(e@),
    }
}

fn same_pairs(a: &Vec<(String, String)>, b: &Vec<(String, String)>) -> (r: bool)
    ensures
        r == (pair_views(a@) == pair_views(b@)),
{
    if a.len() != b.len() {
        assert(pair_views(a@).len() != pair_views(b@).len());
        return false;
    }
    let mut i: usize = 0;
    while i < a.len()
        invariant
            a@.len() == b@.len(),
            i <= a@.len(),
            forall|j: int| 0 <= j < i ==> pair_views(a@)[j] == pair_views(b@)[j],
        decreases a@.len() - i,
    {
        if !(a[i].0 == b[i].0 && a[i].1 == b[i].1) {
            assert(pair_views(a@)[i as int] != pair_views(b@)[i as int]);
            return false;
        }
        i += 1;
    }
    assert(pair_views(a@) =~= pair_views(b@));
    true
}

impl PartialEq for SplInterfaceError {
    fn eq(&self, other: &SplInterfaceError) -> (r: bool) {
        match (self, other) {
            (SplInterfaceError::ParseError, SplInterfaceError::ParseError) => true,
            (
                SplInterfaceError::InvalidInterfaceNamespace { interface_namespace: a },
                SplInterfaceError::InvalidInterfaceNamespace { interface_namespace: b },
            ) => *a == *b,
            (
                SplInterfaceError::InstructionNotFound { interface_namespace: a1, instruction_namespace: a2 },
                SplInterfaceError::InstructionNotFound { interface_namespace: b1, instruction_namespace: b2 },
            ) => *a1 == *b1 && *a2 == *b2,
            (
                SplInterfaceError::InstructionMissing { missing: a },
                SplInterfaceError::InstructionMissing { missing: b },
            ) => same_pairs(a, b),
            (
                SplInterfaceError::InstructionIncorrectNumberOfArgs,
                SplInterfaceError::InstructionIncorrectNumberOfArgs,
            ) => true,
            (SplInterfaceError::InstructionIncorrectArgType, SplInterfaceError::InstructionIncorrectArgType) => true,
            _ => false,
        }
    }
}

impl vstd::std_specs::cmp::PartialEqSpecImpl for SplInterfaceError {
    open spec fn obeys_eq_spec() -> bool {
        true
    }

    open spec fn eq_spec(&self, other: &SplInterfaceError) -> bool {
        self@ == other@
    }
}

impl Eq for SplInterfaceError {}

} // verus!
