//! The plain data a worker is built from and works on.

use vstd::prelude::*;

verus! {

/// One configured account: a display name, the credential it authenticates
/// with, and the proxy its traffic leaves through, if any.
#[derive(Debug, PartialEq, Eq)]
pub struct Account {
    pub name: String,
    pub cookie: String,
    pub proxy: Option<String>,
}

/// What an `Account` holds.
pub struct AccountView {
    pub name: Seq<char>,
    pub cookie: Seq<char>,
    pub proxy: Option<Seq<char>>,
}

impl View for Account {
    type V = AccountView;

    open spec fn view(&self) -> AccountView {
        AccountView {
            name: self.name@,
            cookie: self.cookie@,
            proxy: match self.proxy {
                Some(p) => Some(p@),
                None => None,
            },
        }
    }
}

impl Clone for Account {
    fn clone(&self) -> (copy: Self)
        ensures
            copy@ == self@,
    {
        let proxy = match &self.proxy {
            Some(p) => Some(p.clone()),
            None => None,
        };
        Account { name: self.name.clone(), cookie: self.cookie.clone(), proxy }
    }
}

/// The group that every worker invites into: its display name and the id
/// that remote calls refer to it by.
#[derive(Debug, PartialEq, Eq)]
pub struct Group {
    pub name: String,
    pub id: String,
}

/// What a `Group` holds.
pub struct GroupView {
    pub name: Seq<char>,
    pub id: Seq<char>,
}

impl View for Group {
    type V = GroupView;

    open spec fn view(&self) -> GroupView {
        GroupView { name: self.name@, id: self.id@ }
    }
}

impl Clone for Group {
    fn clone(&self) -> (copy: Self)
        ensures
            copy@ == self@,
    {
        Group { name: self.name.clone(), id: self.id.clone() }
    }
}

/// A user found by a search: the id that an invitation is addressed to and
/// the name shown in reports.
#[derive(Debug, PartialEq, Eq)]
pub struct Target {
    pub id: String,
    pub display_name: String,
}

/// What a `Target` holds.
pub struct TargetView {
    pub id: Seq<char>,
    pub display_name: Seq<char>,
}

impl View for Target {
    type V = TargetView;

    open spec fn view(&self) -> TargetView {
        TargetView { id: self.id@, display_name: self.display_name@ }
    }
}

impl Clone for Target {
    fn clone(&self) -> (copy: Self)
        ensures
            copy@ == self@,
    {
        Target { id: self.id.clone(), display_name: self.display_name.clone() }
    }
}

/// The views of a sequence of targets, in the same order.
pub open spec fn targets_view(targets: Seq<Target>) -> Seq<TargetView> {
    targets.map_values(|t: Target| t@)
}

} // verus!
