//! Copy-on-write storage of virtual machines.

use crate::commands::agent::print_lines;
use crate::commands::agent;
use crate::text as t;
use vstd::prelude::*;
use vstd::string::*;

verus! {

#[derive(Debug, PartialEq, Eq)]
pub struct VmCommand {
    pub command: VmSubcommand<String>,
}

#[derive(Debug, PartialEq, Eq)]
pub enum VmSubcommand<S> {
    /// Report what a path's filesystem can do.
    Fstype { path: S },
    Clone { src: S, dest: S },
    Snapshot { agent_id: S, name: S },
    Rollback { agent_id: S, name: S },
    /// List the snapshots of an agent.
    Snapshots { agent_id: S },
}

impl View for VmSubcommand<String> {
    type V = VmSubcommand<Seq<char>>;

    open spec fn view(&self) -> VmSubcommand<Seq<char>> {
        match self {
            VmSubcommand::Fstype { path } => VmSubcommand::Fstype { path: path@ },
            VmSubcommand::Clone { src, dest } => VmSubcommand::Clone { src: src@, dest: dest@ },
            VmSubcommand::Snapshot { agent_id, name } => VmSubcommand::Snapshot {
                agent_id: agent_id@,
                name: name@,
            },
            VmSubcommand::Rollback { agent_id, name } => VmSubcommand::Rollback {
                agent_id: agent_id@,
                name: name@,
            },
            VmSubcommand::Snapshots { agent_id } => VmSubcommand::Snapshots { agent_id: agent_id@ },
        }
    }
}

/// Where a command stands: what it waits for.
#[derive(Debug, PartialEq, Eq)]
pub enum VmStage<S> {
    Detecting { path: S },
    Cloning { src: S, dest: S },
    Locating { agent_id: S, name: S, rollback: bool },
    Snapping { agent_id: S, name: S },
    Rolling { agent_id: S, name: S },
    Listing { agent_id: S },
    Ended,
}

impl View for VmStage<String> {
    type V = VmStage<Seq<char>>;

    open spec fn view(&self) -> VmStage<Seq<char>> {
        match self {
            VmStage::Detecting { path } => VmStage::Detecting { path: path@ },
            VmStage::Cloning { src, dest } => VmStage::Cloning { src: src@, dest: dest@ },
            VmStage::Locating { agent_id, name, rollback } => VmStage::Locating {
                agent_id: agent_id@,
                name: name@,
                rollback: *rollback,
            },
            VmStage::Snapping { agent_id, name } => VmStage::Snapping {
                agent_id: agent_id@,
                name: name@,
            },
            VmStage::Rolling { agent_id, name } => VmStage::Rolling {
                agent_id: agent_id@,
                name: name@,
            },
            VmStage::Listing { agent_id } => VmStage::Listing { agent_id: agent_id@ },
            VmStage::Ended => VmStage::Ended,
        }
    }
}

#[derive(Debug, PartialEq, Eq)]
pub enum VmEvent<S, L> {
    Failed { error: S },
    /// The filesystem of the path, and whether it can share space between clones.
    Detected { fstype: Option<S>, reflink: bool },
    /// The work is done, in the way of this name; what was made lies at the path.
    Made { kind: S, path: S },
    /// The rootfs of the agent; none where it does not run in Firecracker.
    Rootfs { path: Option<S> },
    /// The names of the snapshots; none where they cannot be read.
    Names { found: bool, names: L },
}

impl View for VmEvent<String, Vec<String>> {
    type V = VmEvent<Seq<char>, Seq<Seq<char>>>;

    open spec fn view(&self) -> VmEvent<Seq<char>, Seq<Seq<char>>> {
        match self {
            VmEvent::Failed { error } => VmEvent::Failed { error: error@ },
            VmEvent::Detected { fstype, reflink } => VmEvent::Detected {
                fstype: t::opt_view(*fstype),
                reflink: *reflink,
            },
            VmEvent::Made { kind, path } => VmEvent::Made { kind: kind@, path: path@ },
            VmEvent::Rootfs { path } => VmEvent::Rootfs { path: t::opt_view(*path) },
            VmEvent::Names { found, names } => VmEvent::Names {
                found: *found,
                names: t::texts(names@),
            },
        }
    }
}

#[derive(Debug, PartialEq, Eq)]
pub enum VmAction<S> {
    Detect { path: S },
    Clone { src: S, dest: S },
    FindRootfs { agent_id: S },
    /// Take a snapshot into the agent's directory of snapshots.
    TakeSnapshot { agent_id: S, rootfs: S, file: S },
    RollBack { agent_id: S, file: S, rootfs: S },
    ListSnapshots { agent_id: S },
    /// Print the text as it is, and end.
    Finish { say: S },
    Fail { message: S },
    /// The event is not one that was waited for.
    Ignore,
}

impl View for VmAction<String> {
    type V = VmAction<Seq<char>>;

    open spec fn view(&self) -> VmAction<Seq<char>> {
        match self {
            VmAction::Detect { path } => VmAction::Detect { path: path@ },
            VmAction::Clone { src, dest } => VmAction::Clone { src: src@, dest: dest@ },
            VmAction::FindRootfs { agent_id } => VmAction::FindRootfs { agent_id: agent_id@ },
            VmAction::TakeSnapshot { agent_id, rootfs, file } => VmAction::TakeSnapshot {
                agent_id: agent_id@,
                rootfs: rootfs@,
                file: file@,
            },
            VmAction::RollBack { agent_id, file, rootfs } => VmAction::RollBack {
                agent_id: agent_id@,
                file: file@,
                rootfs: rootfs@,
            },
            VmAction::ListSnapshots { agent_id } => VmAction::ListSnapshots { agent_id: agent_id@ },
            VmAction::Finish { say } => VmAction::Finish { say: say@ },
            VmAction::Fail { message } => VmAction::Fail { message: message@ },
            VmAction::Ignore => VmAction::Ignore,
        }
    }
}

pub type StageView = VmStage<Seq<char>>;

pub type ActionView = VmAction<Seq<char>>;

pub open spec fn started(command: VmSubcommand<Seq<char>>) -> (StageView, ActionView) {
    match command {
        VmSubcommand::Fstype { path } => (VmStage::Detecting { path }, VmAction::Detect { path }),
        VmSubcommand::Clone { src, dest } => (VmStage::Cloning { src, dest }, VmAction::Clone { src, dest }),
        VmSubcommand::Snapshot { agent_id, name } => (
            VmStage::Locating { agent_id, name, rollback: false },
            VmAction::FindRootfs { agent_id },
        ),
        VmSubcommand::Rollback { agent_id, name } => (
            VmStage::Locating { agent_id, name, rollback: true },
            VmAction::FindRootfs { agent_id },
        ),
        VmSubcommand::Snapshots { agent_id } => (
            VmStage::Listing { agent_id },
            VmAction::ListSnapshots { agent_id },
        ),
    }
}

/// Starts a command.
pub fn handle_vm(command: VmCommand) -> (r: (VmStage<String>, VmAction<String>))
    ensures
        (r.0@, r.1@) == started(command.command@),
{
    match command.command {
        VmSubcommand::Fstype { path } => {
            let asked = path.clone();
            (VmStage::Detecting { path }, VmAction::Detect { path: asked })
        },
        VmSubcommand::Clone { src, dest } => {
            let action = VmAction::Clone { src: src.clone(), dest: dest.clone() };
            (VmStage::Cloning { src, dest }, action)
        },
        VmSubcommand::Snapshot { agent_id, name } => {
            let id = agent_id.clone();
            (VmStage::Locating { agent_id, name, rollback: false }, VmAction::FindRootfs { agent_id: id })
        },
        VmSubcommand::Rollback { agent_id, name } => {
            let id = agent_id.clone();
            (VmStage::Locating { agent_id, name, rollback: true }, VmAction::FindRootfs { agent_id: id })
        },
        VmSubcommand::Snapshots { agent_id } => {
            let id = agent_id.clone();
            (VmStage::Listing { agent_id }, VmAction::ListSnapshots { agent_id: id })
        },
    }
}

/// What is said of a path's filesystem.
pub open spec fn fstype_text(path: Seq<char>, fstype: Option<Seq<char>>, reflink: bool) -> Seq<char> {
    match fstype {
        Some(fs) => path + ": "@ + fs + " - "@ + (if reflink {
            "copy-on-write: reflink supported (instant, space-shared clones)"@
        } else {
            "no reflink - clones are full byte copies"@
        }) + "\n"@,
        None => path + ": filesystem could not be detected - clones will be full copies\n"@,
    }
}

/// The file that holds a snapshot.
pub open spec fn snapshot_file(name: Seq<char>) -> Seq<char> {
    name + ".ext4"@
}

pub open spec fn no_snapshots(agent_id: Seq<char>) -> Seq<char> {
    "no CoW snapshots for "@ + agent_id + "\n"@
}

impl VmStage<Seq<char>> {
    /// How a command goes on when an event comes.
    pub open spec fn next(self, event: VmEvent<Seq<char>, Seq<Seq<char>>>) -> (StageView, ActionView) {
        match (self, event) {
            (VmStage::Ended, _) => (self, VmAction::Ignore),
            (_, VmEvent::Failed { error }) => (VmStage::Ended, VmAction::Fail { message: error }),
            (VmStage::Detecting { path }, VmEvent::Detected { fstype, reflink }) => (
                VmStage::Ended,
                VmAction::Finish { say: fstype_text(path, fstype, reflink) },
            ),
            (VmStage::Cloning { src, dest }, VmEvent::Made { kind, path }) => (
                VmStage::Ended,
                VmAction::Finish { say: "cloned "@ + src + " -> "@ + dest + " ["@ + kind + "]\n"@ },
            ),
            (VmStage::Locating { agent_id, name, rollback }, VmEvent::Rootfs { path }) => match path {
                None => (
                    VmStage::Ended,
                    VmAction::Fail {
                        message: agent_id
                            + " is not a Firecracker agent - CoW rootfs snapshots apply to Firecracker"@,
                    },
                ),
                Some(rootfs) => if rollback {
                    (
                        VmStage::Rolling { agent_id, name },
                        VmAction::RollBack { agent_id, file: snapshot_file(name), rootfs },
                    )
                } else {
                    (
                        VmStage::Snapping { agent_id, name },
                        VmAction::TakeSnapshot { agent_id, rootfs, file: snapshot_file(name) },
                    )
                },
            },
            (VmStage::Snapping { agent_id, name }, VmEvent::Made { kind, path }) => (
                VmStage::Ended,
                VmAction::Finish {
                    say: "snapshot '"@ + name + "' of "@ + agent_id + " ["@ + kind + "] -> "@ + path + "\n"@,
                },
            ),
            (VmStage::Rolling { agent_id, name }, VmEvent::Made { kind, path }) => (
                VmStage::Ended,
                VmAction::Finish {
                    say: "rolled "@ + agent_id + " back to '"@ + name + "' ["@ + kind
                        + "] - restart the agent to boot the restored rootfs\n"@,
                },
            ),
            (VmStage::Listing { agent_id }, VmEvent::Names { found, names }) => (
                VmStage::Ended,
                VmAction::Finish {
                    say: if found && names.len() > 0 {
                        agent::each_line(t::in_order(names))
                    } else {
                        no_snapshots(agent_id)
                    },
                },
            ),
            _ => (self, VmAction::Ignore),
        }
    }
}

impl VmStage<String> {
    /// Goes on when an event comes.
    pub fn advance(self, event: VmEvent<String, Vec<String>>) -> (r: (VmStage<String>, VmAction<String>))
        ensures
            (r.0@, r.1@) == self@.next(event@),
    {
        match (self, event) {
            (VmStage::Ended, _) => (VmStage::Ended, VmAction::Ignore),
            (_, VmEvent::Failed { error }) => (VmStage::Ended, VmAction::Fail { message: error }),
            (VmStage::Detecting { path }, VmEvent::Detected { fstype, reflink }) => {
                let say = match fstype {
                    Some(fs) => {
                        let cap = if reflink {
                            "copy-on-write: reflink supported (instant, space-shared clones)"
                        } else {
                            "no reflink - clones are full byte copies"
                        };
                        path.concat(": ").concat(fs.as_str()).concat(" - ").concat(cap).concat("\n")
                    },
                    None => path.concat(
                        ": filesystem could not be detected - clones will be full copies\n",
                    ),
                };
                (VmStage::Ended, VmAction::Finish { say })
            },
            (VmStage::Cloning { src, dest }, VmEvent::Made { kind, path: _ }) => {
                let say = "cloned ".to_owned().concat(src.as_str()).concat(" -> ").concat(dest.as_str()).concat(
                    " [",
                ).concat(kind.as_str()).concat("]\n");
                (VmStage::Ended, VmAction::Finish { say })
            },
            (VmStage::Locating { agent_id, name, rollback }, VmEvent::Rootfs { path }) => match path {
                None => (
                    VmStage::Ended,
                    VmAction::Fail {
                        message: agent_id.concat(
                            " is not a Firecracker agent - CoW rootfs snapshots apply to Firecracker",
                        ),
                    },
                ),
                Some(rootfs) => {
                    let id = agent_id.clone();
                    let file = name.clone().concat(".ext4");
                    if rollback {
                        (VmStage::Rolling { agent_id, name }, VmAction::RollBack { agent_id: id, file, rootfs })
                    } else {
                        (
                            VmStage::Snapping { agent_id, name },
                            VmAction::TakeSnapshot { agent_id: id, rootfs, file },
                        )
                    }
                },
            },
            (VmStage::Snapping { agent_id, name }, VmEvent::Made { kind, path }) => {
                let say = "snapshot '".to_owned().concat(name.as_str()).concat("' of ").concat(
                    agent_id.as_str(),
                ).concat(" [").concat(kind.as_str()).concat("] -> ").concat(path.as_str()).concat("\n");
                (VmStage::Ended, VmAction::Finish { say })
            },
            (VmStage::Rolling { agent_id, name }, VmEvent::Made { kind, path: _ }) => {
                let say = "rolled ".to_owned().concat(agent_id.as_str()).concat(" back to '").concat(
                    name.as_str(),
                ).concat("' [").concat(kind.as_str()).concat(
                    "] - restart the agent to boot the restored rootfs\n",
                );
                (VmStage::Ended, VmAction::Finish { say })
            },
            (VmStage::Listing { agent_id }, VmEvent::Names { found, names }) => {
                let say = if found && names.len() > 0 {
                    print_lines(&t::sort_texts(&names))
                } else {
                    "no CoW snapshots for ".to_owned().concat(agent_id.as_str()).concat("\n")
                };
                (VmStage::Ended, VmAction::Finish { say })
            },
            (stage, _) => (stage, VmAction::Ignore),
        }
    }
}

/// A rollback reads the file that a snapshot of the same name wrote.
pub proof fn law_a_rollback_reads_what_a_snapshot_wrote(agent_id: Seq<char>, name: Seq<char>, rootfs: Seq<char>)
    ensures
        ({
            let taken = started(VmSubcommand::Snapshot { agent_id, name }).0.next(
                VmEvent::Rootfs { path: Some(rootfs) },
            ).1;
            let rolled = started(VmSubcommand::Rollback { agent_id, name }).0.next(
                VmEvent::Rootfs { path: Some(rootfs) },
            ).1;
            taken == (VmAction::<Seq<char>>::TakeSnapshot { agent_id, rootfs, file: snapshot_file(name) }) && rolled
                == (VmAction::<Seq<char>>::RollBack { agent_id, file: snapshot_file(name), rootfs })
        }),
{
}

/// Where the image of an agent's root file system is: where it says, if that is
/// absolute, else below the directory that the home stands in, or below the home
/// itself where it stands in none.
pub open spec fn rootfs_of(image: Seq<char>, absolute: bool, root: Seq<char>, parent: Option<Seq<char>>) -> Seq<char> {
    let base = match parent {
        Some(p) => p,
        None => root,
    };
    if absolute {
        image
    } else if base.len() == 0 || base.last() == '/' {
        base + image
    } else {
        base + "/"@ + image
    }
}

pub fn rootfs_path(image: &str, absolute: bool, root: &str, parent: Option<&str>) -> (r: String)
    ensures
        r@ == rootfs_of(image@, absolute, root@, t::opt_str(parent)),
{
    if absolute {
        return image.to_owned();
    }
    let base = match parent {
        Some(p) => p,
        None => root,
    };
    let v = t::chars_of(base);
    let n: usize = v.len();
    if n == 0 || v[n - 1] == '/' {
        base.to_owned().concat(image)
    } else {
        base.to_owned().concat("/").concat(image)
    }
}

/// A disk is cloned from the source to the target that are named, and what was
/// made is told; a path is looked at and told of.
pub proof fn law_a_disk_is_cloned_as_asked(src: Seq<char>, dest: Seq<char>, kind: Seq<char>, made: Seq<char>)
    ensures
        started(VmSubcommand::Clone { src, dest }).1 == (ActionView::Clone { src, dest }),
        started(VmSubcommand::Clone { src, dest }).0.next(VmEvent::Made { kind, path: made }).1 == (ActionView::Finish {
            say: "cloned "@ + src + " -> "@ + dest + " ["@ + kind + "]\n"@,
        }),
        started(VmSubcommand::Fstype { path: src }).1 == (ActionView::Detect { path: src }),
        started(VmSubcommand::Fstype { path: src }).0.next(VmEvent::Detected { fstype: Some(kind), reflink: true }).1
            matches VmAction::Finish { say } && t::starts(say, src + ": "@ + kind),
{
    let say = fstype_text(src, Some(kind), true);
    let a = src + ": "@ + kind;
    assert(say.subrange(0, a.len() as int) =~= a);
}

/// Only a Firecracker agent has a disk to keep; for any other nothing is done.
pub proof fn law_only_firecracker_disks_are_kept(agent_id: Seq<char>, name: Seq<char>, rollback: bool)
    ensures
        ({
            let stage: StageView = VmStage::Locating { agent_id, name, rollback };
            &&& stage.next(VmEvent::Rootfs { path: None }).1 is Fail
            &&& started(VmSubcommand::Snapshot { agent_id, name }).1 == (ActionView::FindRootfs { agent_id })
            &&& started(VmSubcommand::Rollback { agent_id, name }).1 == (ActionView::FindRootfs { agent_id })
            &&& snapshot_file(name) == name + ".ext4"@
        }),
{
}

/// The kept disks are listed, each in its line and in order; where there is none,
/// that is said of the agent.
pub proof fn law_the_kept_disks_are_listed(agent_id: Seq<char>, names: Seq<Seq<char>>, error: Seq<char>)
    ensures
        ({
            let stage = started(VmSubcommand::Snapshots { agent_id }).0;
            &&& started(VmSubcommand::Snapshots { agent_id }).1 == (ActionView::ListSnapshots { agent_id })
            &&& names.len() > 0 ==> stage.next(VmEvent::Names { found: true, names }).1 == (ActionView::Finish {
                say: agent::each_line(t::in_order(names)),
            })
            &&& stage.next(VmEvent::Names { found: false, names }).1 == (ActionView::Finish {
                say: "no CoW snapshots for "@ + agent_id + "\n"@,
            })
            &&& stage.next(VmEvent::Failed { error }).1 == (ActionView::Fail { message: error })
        }),
{
}

/// What was kept or rolled back is told, with the agent and the name.
pub proof fn law_what_was_done_to_a_disk_is_told(agent_id: Seq<char>, name: Seq<char>, kind: Seq<char>, path: Seq<char>)
    ensures
        ({
            let snapping: StageView = VmStage::Snapping { agent_id, name };
            let rolling: StageView = VmStage::Rolling { agent_id, name };
            &&& snapping.next(VmEvent::Made { kind, path }).1 matches VmAction::Finish { say } && t::starts(
                say,
                "snapshot '"@ + name + "' of "@ + agent_id,
            )
            &&& rolling.next(VmEvent::Made { kind, path }).1 matches VmAction::Finish { say } && t::starts(
                say,
                "rolled "@ + agent_id + " back to '"@ + name,
            )
        }),
{
    let a = "snapshot '"@ + name + "' of "@ + agent_id;
    let s = "snapshot '"@ + name + "' of "@ + agent_id + " ["@ + kind + "] -> "@ + path + "\n"@;
    assert(s.subrange(0, a.len() as int) =~= a);
    let b = "rolled "@ + agent_id + " back to '"@ + name;
    let r = "rolled "@ + agent_id + " back to '"@ + name + "' ["@ + kind
        + "] - restart the agent to boot the restored rootfs\n"@;
    assert(r.subrange(0, b.len() as int) =~= b);
}

/// An image with a full path is found there; any other beside its description.
pub proof fn law_an_image_is_found_beside_its_description(image: Seq<char>, root: Seq<char>, parent: Seq<char>)
    requires
        parent.len() > 0,
        parent.last() != '/',
    ensures
        rootfs_of(image, true, root, Some(parent)) == image,
        rootfs_of(image, false, root, Some(parent)) == parent + "/"@ + image,
        root == parent ==> rootfs_of(image, false, root, None) == parent + "/"@ + image,
{
}

} // verus!
