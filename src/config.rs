use vstd::prelude::*;
use vstd::string::StringExecFns;
use crate::utils::str_eq;

verus! {

/// What a configuration command does.
#[derive(Debug, Clone, Copy, PartialEq, Eq)]
pub enum Action {
    Create,
    Update,
    Inspect,
    Delete,
}

/// Which kind of record a configuration command is about.
#[derive(Debug, Clone, Copy, PartialEq, Eq)]
pub enum Subject {
    Contractor,
    Alias,
}

impl Action {
    /// Reads `new`, `update`, `show` or `delete`; anything else fails with a
    /// message that names it.
    pub fn from_str(s: &str) -> (r: Result<Action, String>)
        ensures
            s@ == "new"@ ==> r == Ok::<Action, String>(Action::Create),
            s@ == "update"@ ==> r == Ok::<Action, String>(Action::Update),
            s@ == "show"@ ==> r == Ok::<Action, String>(Action::Inspect),
            s@ == "delete"@ ==> r == Ok::<Action, String>(Action::Delete),
            s@ != "new"@ && s@ != "update"@ && s@ != "show"@ && s@ != "delete"@ ==> r is Err
                && r->Err_0@ == "Unknown action: "@ + s@,
    {
        proof {
            reveal_strlit("new");
            reveal_strlit("update");
            reveal_strlit("show");
            reveal_strlit("delete");
            assert("new"@.len() == 3 && "show"@.len() == 4);
            assert("update"@.len() == 6 && "delete"@.len() == 6);
            assert("update"@[0] != "delete"@[0]);
        }
        if str_eq(s, "new") {
            Ok(Action::Create)
        } else if str_eq(s, "update") {
            Ok(Action::Update)
        } else if str_eq(s, "show") {
            Ok(Action::Inspect)
        } else if str_eq(s, "delete") {
            Ok(Action::Delete)
        } else {
            Err("Unknown action: ".to_owned().concat(s))
        }
    }
}

impl Subject {
    /// Reads `contract` or `contractor`, or `alias`; anything else fails with
    /// a message that names it.
    pub fn from_str(s: &str) -> (r: Result<Subject, String>)
        ensures
            s@ == "contract"@ || s@ == "contractor"@ ==> r == Ok::<Subject, String>(
                Subject::Contractor,
            ),
            s@ == "alias"@ ==> r == Ok::<Subject, String>(Subject::Alias),
            s@ != "contract"@ && s@ != "contractor"@ && s@ != "alias"@ ==> r is Err
                && r->Err_0@ == "Unknown config subject: "@ + s@,
    {
        proof {
            reveal_strlit("contract");
            reveal_strlit("contractor");
            reveal_strlit("alias");
            assert("contract"@.len() == 8 && "contractor"@.len() == 10 && "alias"@.len() == 5);
        }
        if str_eq(s, "contract") || str_eq(s, "contractor") {
            Ok(Subject::Contractor)
        } else if str_eq(s, "alias") {
            Ok(Subject::Alias)
        } else {
            Err("Unknown config subject: ".to_owned().concat(s))
        }
    }
}

} // verus!
