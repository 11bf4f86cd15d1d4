use vstd::prelude::*;

verus! {

/// What should happen to a file once it has been classified.
#[derive(Debug, PartialEq, Eq, Structural, Clone, Copy)]
pub enum Action {
    Rename,
    Complete,
    Ignore,
    Delete,
    Whitelist,
}

impl Action {
    /// The display name of the action.
    pub open spec fn spec_name(self) -> Seq<char> {
        match self {
            Action::Complete => "Complete"@,
            Action::Rename => "Rename"@,
            Action::Delete => "Delete"@,
            Action::Ignore => "Ignore"@,
            Action::Whitelist => "Whitelist"@,
        }
    }

    /// Every action, in the order in which they are listed to a user.
    pub fn iterator() -> (r: Vec<Action>)
        ensures
            r@ == seq![
                Action::Rename,
                Action::Delete,
                Action::Ignore,
                Action::Whitelist,
                Action::Complete,
            ],
    {
        let r = vec![
            Action::Rename,
            Action::Delete,
            Action::Ignore,
            Action::Whitelist,
            Action::Complete,
        ];
        assert(r@ =~= seq![
            Action::Rename,
            Action::Delete,
            Action::Ignore,
            Action::Whitelist,
            Action::Complete,
        ]);
        r
    }

    pub fn to_str(&self) -> (r: &'static str)
        ensures
            r@ == self.spec_name(),
    {
        match self {
            Action::Complete => "Complete",
            Action::Rename => "Rename",
            Action::Delete => "Delete",
            Action::Ignore => "Ignore",
            Action::Whitelist => "Whitelist",
        }
    }
}

} // verus!
