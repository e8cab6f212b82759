//! The deletion engine: the order in which a path is taken apart.
//!
//! Deleting is planned on a picture of what stands at the path: a file, or a
//! directory with all that it holds. The plan lists the removals one by one.
//! In a directory the files go first, then each subdirectory with its
//! contents, and the directory itself goes last, when it is empty. Whoever
//! carries the plan out stops at the first removal that fails; what was
//! removed before stays removed.

use vstd::prelude::*;
use vstd::string::*;

verus! {

/// A file or a directory with its contents.
#[derive(Debug)]
pub enum Node {
    /// Anything that is removed as a file.
    File { path: String },
    /// A directory and what it holds, in the order of its listing.
    Dir { path: String, children: Vec<Node> },
}

/// What stands at the path that is to be deleted.
#[derive(Debug)]
pub enum Target {
    /// Nothing exists at the path.
    Missing,
    /// Something exists that is neither a file nor a directory.
    Other,
    /// A file, or a directory with its contents.
    Tree(Node),
}

/// One removal.
#[derive(Debug)]
pub enum Removal {
    /// Remove the file at this path.
    File(String),
    /// Remove the empty directory at this path.
    Dir(String),
}

/// A removal with its path as a sequence of characters.
pub enum RemovalView {
    File(Seq<char>),
    Dir(Seq<char>),
}

impl View for Removal {
    type V = RemovalView;

    open spec fn view(&self) -> RemovalView {
        match self {
            Removal::File(path) => RemovalView::File(path@),
            Removal::Dir(path) => RemovalView::Dir(path@),
        }
    }
}

/// Why a path was not deleted.
#[derive(Debug, Clone, Copy, PartialEq, Eq, Structural)]
pub enum DeleteError {
    /// Nothing exists at the path.
    NotFound,
}

impl DeleteError {
    /// The text of the error.
    pub open spec fn message_text(self) -> Seq<char> {
        "Path does not exist"@
    }

    /// The text of the error, for display.
    pub fn message(&self) -> (text: String)
        ensures
            text@ == self.message_text(),
    {
        String::from_str("Path does not exist")
    }
}

/// The views of a list of removals, in order.
pub open spec fn removal_views(plan: Seq<Removal>) -> Seq<RemovalView> {
    plan.map_values(|step: Removal| step@)
}

/// The removals of the files among the first `n` children, in order.
pub open spec fn file_steps(children: Seq<Node>, n: int) -> Seq<RemovalView>
    decreases n,
{
    if n <= 0 {
        Seq::empty()
    } else {
        match children[n - 1] {
            Node::File { path } => file_steps(children, n - 1).push(RemovalView::File(path@)),
            Node::Dir { .. } => file_steps(children, n - 1),
        }
    }
}

/// The removals of the directories among the first `n` children, each with
/// its contents, in order.
pub open spec fn subdir_steps(children: Seq<Node>, n: int) -> Seq<RemovalView>
    decreases children, n,
{
    if n <= 0 || n > children.len() {
        Seq::empty()
    } else {
        match children[n - 1] {
            Node::File { .. } => subdir_steps(children, n - 1),
            Node::Dir { path, children: inner } => subdir_steps(children, n - 1) + dir_plan(
                path@,
                inner@,
            ),
        }
    }
}

/// The removals that delete a directory: its files, then its subdirectories
/// with their contents, then the directory itself.
pub open spec fn dir_plan(path: Seq<char>, children: Seq<Node>) -> Seq<RemovalView>
    decreases children, children.len() + 1,
{
    file_steps(children, children.len() as int) + subdir_steps(children, children.len() as int)
        + seq![RemovalView::Dir(path)]
}

/// The removals that delete a file or a directory with its contents.
pub open spec fn tree_plan(node: Node) -> Seq<RemovalView> {
    match node {
        Node::File { path } => seq![RemovalView::File(path@)],
        Node::Dir { path, children } => dir_plan(path@, children@),
    }
}

/// Appends to `plan` the removals that delete the directory at `path` with
/// the given contents: all files of the directory, then each subdirectory in
/// the same way, then the directory itself.
pub fn delete_non_empty_dir(path: &String, children: &Vec<Node>, plan: &mut Vec<Removal>)
    ensures
        removal_views(final(plan)@) == removal_views(old(plan)@) + dir_plan(path@, children@),
    decreases children,
{
    let ghost start = removal_views(plan@);
    let mut i: usize = 0;
    while i < children.len()
        invariant
            i <= children.len(),
            removal_views(plan@) == start + file_steps(children@, i as int),
        decreases children.len() - i,
    {
        match &children[i] {
            Node::File { path: file } => {
                let ghost before = plan@;
                plan.push(Removal::File(file.clone()));
                proof {
                    assert(removal_views(plan@) =~= removal_views(before).push(
                        RemovalView::File(file@),
                    ));
                }
            },
            Node::Dir { .. } => {},
        }
        i += 1;
    }
    let ghost files = removal_views(plan@);
    let mut j: usize = 0;
    while j < children.len()
        invariant
            j <= children.len(),
            removal_views(plan@) == files + subdir_steps(children@, j as int),
        decreases children.len() - j,
    {
        match &children[j] {
            Node::File { .. } => {},
            Node::Dir { path: inner_path, children: inner } => {
                delete_non_empty_dir(inner_path, inner, plan);
            },
        }
        j += 1;
    }
    let ghost before = plan@;
    plan.push(Removal::Dir(path.clone()));
    proof {
        assert(removal_views(plan@) =~= removal_views(before).push(RemovalView::Dir(path@)));
        assert(removal_views(plan@) =~= start + dir_plan(path@, children@));
    }
}

/// Plans the deletion of what stands at a path. Where nothing exists there
/// the deletion is refused with `NotFound`. A file is removed directly, a
/// directory with all its contents and itself last, and for anything else
/// there is nothing to remove.
pub fn delete_path(target: &Target) -> (result: Result<Vec<Removal>, DeleteError>)
    ensures
        match (target, result) {
            (Target::Missing, Err(error)) => error == DeleteError::NotFound,
            (Target::Other, Ok(plan)) => plan@.len() == 0,
            (Target::Tree(node), Ok(plan)) => removal_views(plan@) == tree_plan(*node),
            _ => false,
        },
{
    let mut plan: Vec<Removal> = Vec::new();
    match target {
        Target::Missing => {
            return Err(DeleteError::NotFound);
        },
        Target::Other => {},
        Target::Tree(Node::File { path }) => {
            plan.push(Removal::File(path.clone()));
            proof {
                assert(removal_views(plan@) =~= seq![RemovalView::File(path@)]);
            }
        },
        Target::Tree(Node::Dir { path, children }) => {
            proof {
                assert(removal_views(plan@) =~= Seq::<RemovalView>::empty());
            }
            delete_non_empty_dir(path, children, &mut plan);
            proof {
                assert(removal_views(plan@) =~= dir_plan(path@, children@));
            }
        },
    }
    Ok(plan)
}

} // verus!
