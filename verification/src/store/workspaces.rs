//! Workspaces in the store. A root directory has one name for good: removing a
//! workspace only takes it off the list, and registering it again brings the
//! same workspace back.

use vstd::prelude::*;

use crate::error;
use crate::error::{Error, ErrorView};
use crate::model::{Workspace, WorkspaceView};
use crate::order;
use crate::order::{ascii_fold, order_by_text};
use crate::store::rows;
use crate::store::rows::{Database, DatabaseView, WorkspaceRow, WorkspaceRowView};
use crate::text;
use crate::text::{is_blank, joined, joined3, same_text};

verus! {

/// The store with one workspace set on or off the list.
pub open spec fn with_active(db: DatabaseView, at: int, active: bool) -> DatabaseView {
    DatabaseView {
        workspaces: db.workspaces.update(
            at,
            WorkspaceRowView { active, ..db.workspaces[at] },
        ),
        ..db
    }
}

/// Registering the directory `root` under `name`; `id` and `now` are what a
/// new workspace gets.
pub open spec fn add_workspace_step(
    db: DatabaseView,
    name: Seq<char>,
    root: Seq<char>,
    is_directory: bool,
    id: Seq<char>,
    now: i64,
) -> (DatabaseView, Result<WorkspaceView, ErrorView>) {
    if text::blank(name) {
        (db, Err(error::refused("workspace name must not be empty"@)))
    } else if !is_directory {
        (db, Err(error::refused("workspace root is not a directory: "@ + root)))
    } else {
        match rows::root_place(db, root) {
            Some(at) => if db.workspaces[at].workspace.name != name {
                (
                    db,
                    Err(
                        error::refused(
                            "workspace root "@ + root + " is already registered as "@
                                + db.workspaces[at].workspace.name,
                        ),
                    ),
                )
            } else {
                (with_active(db, at, true), Ok(db.workspaces[at].workspace))
            },
            None => match rows::name_place(db, name) {
                Some(at) => (
                    db,
                    Err(
                        error::refused(
                            "workspace name "@ + name + " is already registered for "@
                                + db.workspaces[at].workspace.root,
                        ),
                    ),
                ),
                None => if rows::workspace_place(db, id) is Some {
                    (db, Err(ErrorView::Database("UNIQUE constraint failed: workspaces.id"@)))
                } else {
                    let workspace = WorkspaceView { id, name, root, created_at_ms: now };
                    (
                        DatabaseView {
                            workspaces: db.workspaces.push(
                                WorkspaceRowView { workspace, active: true },
                            ),
                            ..db
                        },
                        Ok(workspace),
                    )
                },
            },
        }
    }
}

/// Taking the workspace that goes by `identifier` off the list.
pub open spec fn remove_workspace_step(db: DatabaseView, identifier: Seq<char>) -> (
    DatabaseView,
    Result<(), ErrorView>,
) {
    match rows::known_place(db, identifier) {
        Some(at) => (with_active(db, at, false), Ok(())),
        None => (db, Err(ErrorView::WorkspaceNotFound(identifier))),
    }
}

/// The registered workspace that goes by `identifier`.
pub open spec fn registered(db: DatabaseView, identifier: Seq<char>) -> Result<
    WorkspaceView,
    ErrorView,
> {
    match rows::registered_place(db, identifier) {
        Some(at) => Ok(db.workspaces[at].workspace),
        None => Err(ErrorView::WorkspaceNotFound(identifier)),
    }
}

/// The registered workspace with this root.
pub open spec fn registered_root(db: DatabaseView, root: Seq<char>) -> Option<WorkspaceView> {
    match crate::order::position(
        db.workspaces,
        |row: WorkspaceRowView| row.active && row.workspace.root == root,
    ) {
        Some(at) => Some(db.workspaces[at].workspace),
        None => None,
    }
}

/// The registered workspaces by name, without regard to the case of ASCII
/// letters.
pub open spec fn registered_list(db: DatabaseView) -> Seq<WorkspaceView> {
    let list = order::picked(
        db.workspaces,
        order::matching(db.workspaces.len(), |i: int| db.workspaces[i].active),
    ).map_values(|row: WorkspaceRowView| row.workspace);
    let names = list.map_values(|workspace: WorkspaceView| order::ascii_folded(workspace.name));
    order::picked(list, order::stable_order(list.len(), order::listed_above(names)))
}

/// Refuses a name with nothing in it.
pub fn check_name(name: &str) -> (checked: Result<(), Error>)
    ensures
        error::outcome_view(checked, |u: ()| u) == (if text::blank(name@) {
            Err(error::refused("workspace name must not be empty"@))
        } else {
            Ok(())
        }),
{
    if is_blank(name) {
        Err(Error::InvalidRequest("workspace name must not be empty".to_owned()))
    } else {
        Ok(())
    }
}

impl Database {
    fn set_active(&mut self, at: usize, active: bool)
        requires
            at < old(self).workspaces.len(),
        ensures
            final(self)@ == with_active(old(self)@, at as int, active),
    {
        assert(self@.workspaces[at as int] == self.workspaces@[at as int]@);
        let row = &mut self.workspaces[at];
        row.active = active;
        assert(self@.workspaces =~= with_active(old(self)@, at as int, active).workspaces);
    }

    /// Registers the directory `root` under `name`.
    pub fn add_workspace_at(
        &mut self,
        name: &str,
        root: &str,
        is_directory: bool,
        id: String,
        now: i64,
    ) -> (added: Result<Workspace, Error>)
        ensures
            (final(self)@, error::viewed(added)) == add_workspace_step(
                old(self)@,
                name@,
                root@,
                is_directory,
                id@,
                now,
            ),
    {
        match check_name(name) {
            Err(error) => {
                return Err(error);
            },
            Ok(()) => {},
        }
        if !is_directory {
            return Err(
                Error::InvalidRequest(joined("workspace root is not a directory: ", root)),
            );
        }
        proof {
            order::position_is_first(
                self@.workspaces,
                |row: WorkspaceRowView| row.workspace.root == root@,
            );
            order::position_is_first(
                self@.workspaces,
                |row: WorkspaceRowView| row.workspace.name == name@,
            );
        }
        match self.find_root(root) {
            Some(at) => {
                assert(self@.workspaces[at as int] == self.workspaces@[at as int]@);
                if !same_text(self.workspaces[at].workspace.name.as_str(), name) {
                    let mut reason = joined3(
                        "workspace root ",
                        self.workspaces[at].workspace.root.as_str(),
                        " is already registered as ",
                    );
                    reason.append(self.workspaces[at].workspace.name.as_str());
                    return Err(Error::InvalidRequest(reason));
                }
                let workspace = self.workspaces[at].workspace.clone();
                self.set_active(at, true);
                Ok(workspace)
            },
            None => match self.find_name(name) {
                Some(at) => {
                    assert(self@.workspaces[at as int] == self.workspaces@[at as int]@);
                    let mut reason = joined3(
                        "workspace name ",
                        name,
                        " is already registered for ",
                    );
                    reason.append(self.workspaces[at].workspace.root.as_str());
                    Err(Error::InvalidRequest(reason))
                },
                None => {
                    if self.find_workspace(id.as_str()).is_some() {
                        return Err(
                            Error::Database("UNIQUE constraint failed: workspaces.id".to_owned()),
                        );
                    }
                    let workspace = Workspace {
                        id,
                        name: name.to_owned(),
                        root: root.to_owned(),
                        created_at_ms: now,
                    };
                    let row = WorkspaceRow { workspace: workspace.clone(), active: true };
                    self.workspaces.push(row);
                    assert(self@.workspaces =~= old(self)@.workspaces.push(row@));
                    Ok(workspace)
                },
            },
        }
    }

    /// Takes the workspace that goes by `identifier` off the list.
    pub fn remove_workspace(&mut self, identifier: &str) -> (removed: Result<(), Error>)
        ensures
            (final(self)@, error::outcome_view(removed, |u: ()| u)) == remove_workspace_step(
                old(self)@,
                identifier@,
            ),
    {
        proof {
            order::position_is_first(
                self@.workspaces,
                |row: WorkspaceRowView| rows::goes_by(row.workspace, identifier@),
            );
        }
        match self.find_known(identifier) {
            Some(at) => {
                self.set_active(at, false);
                Ok(())
            },
            None => Err(Error::WorkspaceNotFound(identifier.to_owned())),
        }
    }

    /// The registered workspace that goes by `identifier`.
    pub fn get_workspace(&self, identifier: &str) -> (found: Result<Workspace, Error>)
        ensures
            error::viewed(found) == registered(self@, identifier@),
    {
        proof {
            order::position_is_first(
                self@.workspaces,
                |row: WorkspaceRowView| row.active && rows::goes_by(row.workspace, identifier@),
            );
        }
        match self.find_registered(identifier) {
            Some(at) => {
                assert(self@.workspaces[at as int] == self.workspaces@[at as int]@);
                Ok(self.workspaces[at].workspace.clone())
            },
            None => Err(Error::WorkspaceNotFound(identifier.to_owned())),
        }
    }

    /// The registered workspace with this root.
    pub fn find_workspace_by_root(&self, root: &str) -> (found: Option<Workspace>)
        ensures
            (match found {
                Some(workspace) => Some(workspace@),
                None => None,
            }) == registered_root(self@, root@),
    {
        let ghost test = |row: WorkspaceRowView| row.active && row.workspace.root == root@;
        let mut i: usize = 0;
        while i < self.workspaces.len()
            invariant
                i <= self.workspaces.len(),
                test == (|row: WorkspaceRowView| row.active && row.workspace.root == root@),
                forall|k: int| 0 <= k < i ==> !test(#[trigger] self@.workspaces[k]),
            decreases self.workspaces.len() - i,
        {
            let row = &self.workspaces[i];
            assert(self@.workspaces[i as int] == row@);
            if row.active && same_text(row.workspace.root.as_str(), root) {
                proof {
                    crate::order::position_found(self@.workspaces, test, i as int);
                }
                return Some(row.workspace.clone());
            }
            i += 1;
        }
        proof {
            crate::order::position_missing(self@.workspaces, test);
        }
        None
    }

    /// The registered workspaces by name.
    pub fn list_workspaces(&self) -> (list: Vec<Workspace>)
        ensures
            list@.map_values(|item: Workspace| item@) == registered_list(self@),
    {
        let ghost test = |i: int| self@.workspaces[i].active;
        let mut found: Vec<usize> = Vec::new();
        let mut names: Vec<String> = Vec::new();
        let mut i: usize = 0;
        assert(order::places(found@) =~= order::matching(0, test));
        while i < self.workspaces.len()
            invariant
                i <= self.workspaces.len(),
                test == (|i: int| self@.workspaces[i].active),
                order::places(found@) == order::matching(i as nat, test),
                names.len() == found.len(),
                forall|k: int| 0 <= k < found.len() ==> #[trigger] found@[k] < i,
                forall|k: int|
                    0 <= k < found.len() ==> names@[k]@ == order::ascii_folded(
                        self@.workspaces[#[trigger] found@[k] as int].workspace.name,
                    ),
            decreases self.workspaces.len() - i,
        {
            assert(self@.workspaces[i as int] == self.workspaces@[i as int]@);
            if self.workspaces[i].active {
                let ghost before = order::places(found@);
                found.push(i);
                names.push(ascii_fold(self.workspaces[i].workspace.name.as_str()));
                assert(order::places(found@) =~= before.push(i as int));
            }
            i += 1;
        }
        let ghost all = order::picked(self@.workspaces, order::places(found@)).map_values(
            |row: WorkspaceRowView| row.workspace,
        );
        let ghost folded = all.map_values(|workspace: WorkspaceView| order::ascii_folded(workspace.name));
        proof {
            assert(text::texts(names@) =~= folded) by {
                assert forall|k: int| 0 <= k < names.len() implies text::texts(names@)[k] == folded[k] by {
                    assert(order::places(found@)[k] == found@[k] as int);
                }
            }
            order::order_is_complete(names@.len(), order::listed_above(folded));
        }
        let ordered = order_by_text(&names);
        assert(ordered.len() == order::places(ordered@).len());
        assert forall|j: int| 0 <= j < ordered.len() implies #[trigger] ordered@[j]
            < found.len() by {
            assert(order::places(ordered@)[j] == ordered@[j] as int);
        }
        let mut list: Vec<Workspace> = Vec::new();
        let mut k: usize = 0;
        while k < ordered.len()
            invariant
                k <= ordered.len(),
                list.len() == k,
                all == order::picked(self@.workspaces, order::places(found@)).map_values(
                    |row: WorkspaceRowView| row.workspace,
                ),
                forall|j: int| 0 <= j < ordered.len() ==> #[trigger] ordered@[j] < found.len(),
                forall|j: int| 0 <= j < found.len() ==> #[trigger] found@[j]
                    < self.workspaces.len(),
                forall|j: int|
                    0 <= j < k ==> list@[j]@ == all[#[trigger] ordered@[j] as int],
            decreases ordered.len() - k,
        {
            let at = found[ordered[k]];
            proof {
                assert(order::places(found@)[ordered@[k as int] as int] == at as int);
                assert(self@.workspaces[at as int] == self.workspaces@[at as int]@);
            }
            list.push(self.workspaces[at].workspace.clone());
            k += 1;
        }
        assert(list@.map_values(|item: Workspace| item@) =~= order::picked(all, order::places(ordered@))) by {
            assert forall|j: int| 0 <= j < list.len() implies list@[j]@ == order::picked(
                all,
                order::places(ordered@),
            )[j] by {
                assert(order::places(ordered@)[j] == ordered@[j] as int);
            }
        }
        list
    }
}

} // verus!
