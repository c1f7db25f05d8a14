//! Root discovery: finding the project root and providing its data
//! directories.
//!
//! Discovery runs commands and waits for their results. The decisions are
//! made here: each step takes the result of the last command and says which
//! commands are to be run next. Running them is left to the caller.
//!
//! Paths are held as text. They are joined as `std::path` joins them.

use std::path::Path;
use vstd::prelude::*;

verus! {

/// Name of the data directory created at each project root.
pub const CRUMBEEZ_DIR_NAME: &'static str = ".crumbeez";

/// Subdirectory for data that has not been summarized yet.
pub const SCRATCH_DIR: &'static str = "scratchpad";

/// Subdirectory for summary logs.
pub const SUMMARIES_SUBDIR: &'static str = "summaries";

/// Name of the file that holds the persisted event log.
pub const EVENT_LOG_FILE_NAME: &'static str = "events.log";

/// The text of the path that `Path::join` makes of the path `base` and the
/// name `name`.
pub uninterp spec fn joined(base: Seq<char>, name: Seq<char>) -> Seq<char>;

/// `Path::join`, on paths given and returned as text: the path `base`
/// extended by `name`.
#[verifier::external_body]
fn join(base: &str, name: &str) -> (r: String)
    ensures
        r@ == joined(base@, name@),
{
    Path::new(base).join(name).to_string_lossy().into_owned()
}

/// The text that `String::from_utf8_lossy` makes of `bytes`.
pub uninterp spec fn lossy(bytes: Seq<u8>) -> Seq<char>;

/// `String::from_utf8_lossy`: the text of `bytes`, with a replacement
/// scalar where they are not well-formed UTF-8.
#[verifier::external_body]
fn lossy_text(bytes: &[u8]) -> (text: String)
    ensures
        text@ == lossy(bytes@),
{
    String::from_utf8_lossy(bytes).into_owned()
}

/// The text that `str::trim` leaves of `text`.
pub uninterp spec fn trim_of(text: Seq<char>) -> Seq<char>;

/// `str::trim`: the text without the white space at its ends.
#[verifier::external_body]
fn trimmed(text: &str) -> (r: String)
    ensures
        r@ == trim_of(text@),
{
    text.trim().to_string()
}

/// The path of the data directory for the project root `root`: the root
/// extended by the name of the data directory.
pub open spec fn data_dir(root: Seq<char>) -> Seq<char> {
    joined(root, CRUMBEEZ_DIR_NAME@)
}

/// The path of the scratch directory for the project root `root`: its data
/// directory extended by the name of the scratch directory.
pub open spec fn scratch_dir_of(root: Seq<char>) -> Seq<char> {
    joined(data_dir(root), SCRATCH_DIR@)
}

/// The path of the summaries directory for the project root `root`: its
/// data directory extended by the name of the summaries directory.
pub open spec fn summaries_dir_of(root: Seq<char>) -> Seq<char> {
    joined(data_dir(root), SUMMARIES_SUBDIR@)
}

/// The path of the file of the persisted event log for the data directory
/// `dir`: the scratch directory in it, extended by the name of the file.
pub open spec fn event_log_path_in(dir: Seq<char>) -> Seq<char> {
    joined(joined(dir, SCRATCH_DIR@), EVENT_LOG_FILE_NAME@)
}

/// The paths of the directories that must exist for the project root
/// `root`: the scratch directory, then the summaries directory.
pub open spec fn required_dirs_of(root: Seq<char>) -> Seq<Seq<char>> {
    seq![scratch_dir_of(root), summaries_dir_of(root)]
}

/// The texts of a list of paths.
pub open spec fn texts(paths: Seq<String>) -> Seq<Seq<char>> {
    paths.map_values(|p: String| p@)
}

/// The data directory for a project root.
pub fn crumbeez_dir(root: &str) -> (dir: String)
    ensures
        dir@ == data_dir(root@),
{
    join(root, CRUMBEEZ_DIR_NAME)
}

/// The scratch directory for a project root.
pub fn scratch_dir(root: &str) -> (dir: String)
    ensures
        dir@ == scratch_dir_of(root@),
{
    let dir = crumbeez_dir(root);
    join(dir.as_str(), SCRATCH_DIR)
}

/// The summaries directory for a project root.
pub fn summaries_dir(root: &str) -> (dir: String)
    ensures
        dir@ == summaries_dir_of(root@),
{
    let dir = crumbeez_dir(root);
    join(dir.as_str(), SUMMARIES_SUBDIR)
}

/// The file of the persisted event log, in the scratch directory of the
/// data directory `dir`.
pub fn event_log_path_from_crumbeez_dir(dir: &str) -> (path: String)
    ensures
        path@ == event_log_path_in(dir@),
{
    let scratch = join(dir, SCRATCH_DIR);
    join(scratch.as_str(), EVENT_LOG_FILE_NAME)
}

/// All directories that must exist for a project root: the scratch
/// directory and the summaries directory.
pub fn required_dirs(root: &str) -> (dirs: Vec<String>)
    ensures
        texts(dirs@) == required_dirs_of(root@),
        dirs@.len() == 2,
        dirs@[0]@ == scratch_dir_of(root@),
        dirs@[1]@ == summaries_dir_of(root@),
{
    let dirs = vec![scratch_dir(root), summaries_dir(root)];
    assert(texts(dirs@) =~= required_dirs_of(root@));
    dirs
}

/// The phases of root discovery.
#[derive(Debug, PartialEq)]
pub enum DiscoveryPhase {
    /// Waiting for the permission to run commands.
    AwaitingPermissions,
    /// Asked for the root of the repository, waiting for the answer.
    FindingGitRoot,
    /// Asked for the repository that this one is a submodule of, waiting for
    /// the answer.
    FindingSuperproject,
    /// Asked for the data directories to be made, `pending` answers are
    /// still to come.
    CreatingDirs { pending: usize, dirs: Vec<String> },
    /// The data directories are there.
    Ready { dirs: Vec<String> },
    /// Discovery failed with a message.
    Failed(String),
}

/// A copy of a list of paths.
fn clone_paths(paths: &Vec<String>) -> (r: Vec<String>)
    ensures
        r@ == paths@,
{
    let mut r: Vec<String> = Vec::new();
    let mut i: usize = 0;
    while i < paths.len()
        invariant
            0 <= i <= paths@.len(),
            r@ == paths@.take(i as int),
        decreases paths@.len() - i,
    {
        r.push(paths[i].clone());
        assert(r@ =~= paths@.take(i + 1));
        i += 1;
    }
    assert(paths@.take(paths@.len() as int) =~= paths@);
    r
}

impl Clone for DiscoveryPhase {
    fn clone(&self) -> (r: Self)
        ensures
            r.same_as(*self),
    {
        match self {
            DiscoveryPhase::AwaitingPermissions => DiscoveryPhase::AwaitingPermissions,
            DiscoveryPhase::FindingGitRoot => DiscoveryPhase::FindingGitRoot,
            DiscoveryPhase::FindingSuperproject => DiscoveryPhase::FindingSuperproject,
            DiscoveryPhase::CreatingDirs { pending, dirs } => DiscoveryPhase::CreatingDirs {
                pending: *pending,
                dirs: clone_paths(dirs),
            },
            DiscoveryPhase::Ready { dirs } => DiscoveryPhase::Ready { dirs: clone_paths(dirs) },
            DiscoveryPhase::Failed(message) => DiscoveryPhase::Failed(message.clone()),
        }
    }
}

impl Default for DiscoveryPhase {
    fn default() -> (r: Self)
        ensures
            r == DiscoveryPhase::AwaitingPermissions,
    {
        DiscoveryPhase::AwaitingPermissions
    }
}

impl DiscoveryPhase {
    /// The same phase, with the same paths in the same order.
    pub open spec fn same_as(self, other: DiscoveryPhase) -> bool {
        match (self, other) {
            (DiscoveryPhase::AwaitingPermissions, DiscoveryPhase::AwaitingPermissions) => true,
            (DiscoveryPhase::FindingGitRoot, DiscoveryPhase::FindingGitRoot) => true,
            (DiscoveryPhase::FindingSuperproject, DiscoveryPhase::FindingSuperproject) => true,
            (
                DiscoveryPhase::CreatingDirs { pending: left, dirs: d1 },
                DiscoveryPhase::CreatingDirs { pending: right, dirs: d2 },
            ) => left == right && d1@ == d2@,
            (DiscoveryPhase::Ready { dirs: d1 }, DiscoveryPhase::Ready { dirs: d2 }) => d1@
                == d2@,
            (DiscoveryPhase::Failed(m1), DiscoveryPhase::Failed(m2)) => m1@ == m2@,
            _ => false,
        }
    }

    /// The phase after one more answer to a request for directories: the
    /// last answer makes the directories ready. Any other phase stays.
    pub open spec fn after_mkdir(self) -> DiscoveryPhase {
        match self {
            DiscoveryPhase::CreatingDirs { pending, dirs } => if pending <= 1 {
                DiscoveryPhase::Ready { dirs }
            } else {
                DiscoveryPhase::CreatingDirs { pending: (pending - 1) as usize, dirs }
            },
            _ => self,
        }
    }
}

/// What a command was run for.
#[derive(Debug, Clone, Copy, PartialEq, Eq, Structural)]
pub enum CommandPurpose {
    GitToplevel,
    GitSuperproject,
    MkdirCrumbeez,
}

/// A command that discovery wants to be run, in the directory `cwd`.
#[derive(Debug, PartialEq)]
pub enum Command {
    /// Ask git for the root of the repository.
    GitToplevel { cwd: String },
    /// Ask git for the repository that this one is a submodule of.
    GitSuperproject { cwd: String },
    /// Make the directories `dirs`, with their parents.
    Mkdir { dirs: Vec<String>, cwd: String },
}

impl Command {
    /// What the command is run for.
    pub open spec fn spec_purpose(self) -> CommandPurpose {
        match self {
            Command::GitToplevel { .. } => CommandPurpose::GitToplevel,
            Command::GitSuperproject { .. } => CommandPurpose::GitSuperproject,
            Command::Mkdir { .. } => CommandPurpose::MkdirCrumbeez,
        }
    }

    /// What the command is run for.
    pub fn purpose(&self) -> (p: CommandPurpose)
        ensures
            p == self.spec_purpose(),
    {
        match self {
            Command::GitToplevel { .. } => CommandPurpose::GitToplevel,
            Command::GitSuperproject { .. } => CommandPurpose::GitSuperproject,
            Command::Mkdir { .. } => CommandPurpose::MkdirCrumbeez,
        }
    }

    /// A request for the directories that the root `root` must have, run in
    /// `cwd`.
    pub open spec fn is_mkdir_for(self, root: Seq<char>, cwd: Seq<char>) -> bool {
        self matches Command::Mkdir { dirs, cwd: at } && texts(dirs@) == required_dirs_of(root)
            && at@ == cwd
    }
}

/// Whether a command that ended with `exit_code` and printed `stdout`
/// reported a path: it succeeded and printed more than white space.
pub open spec fn reports_path(exit_code: Option<i32>, stdout: Seq<u8>) -> bool {
    exit_code == Some(0i32) && trim_of(lossy(stdout)).len() > 0
}

/// The path that a command reported, if it reported one: what it printed,
/// without the white space at its ends.
fn reported_path(exit_code: Option<i32>, stdout: &[u8]) -> (r: Option<String>)
    ensures
        r is Some == reports_path(exit_code, stdout@),
        r matches Some(path) ==> path@ == trim_of(lossy(stdout@)),
{
    let succeeded = match exit_code {
        Some(code) => code == 0,
        None => false,
    };
    if !succeeded {
        return None;
    }
    let whole = lossy_text(stdout);
    let text = trimmed(whole.as_str());
    if text.as_str().is_empty() {
        None
    } else {
        Some(text)
    }
}

/// State of the root discovery process.
#[derive(Debug)]
pub struct RootDiscovery {
    /// The directory in which the session was started.
    pub initial_cwd: String,
    /// The root of the repository that holds `initial_cwd`, if any.
    pub git_root: Option<String>,
    /// The root of the parent repository, if `initial_cwd` is inside a
    /// submodule.
    pub parent_git_root: Option<String>,
    /// Current phase of the discovery.
    pub phase: DiscoveryPhase,
}

impl Default for RootDiscovery {
    fn default() -> (r: Self)
        ensures
            r.initial_cwd@ == Seq::<char>::empty(),
            r.git_root is None,
            r.parent_git_root is None,
            r.phase == DiscoveryPhase::AwaitingPermissions,
    {
        RootDiscovery::new(String::new())
    }
}

impl RootDiscovery {
    /// A discovery that waits for permissions, for a session started in
    /// `initial_cwd`.
    pub fn new(initial_cwd: String) -> (r: RootDiscovery)
        ensures
            r.initial_cwd == initial_cwd,
            r.git_root is None,
            r.parent_git_root is None,
            r.phase == DiscoveryPhase::AwaitingPermissions,
    {
        RootDiscovery {
            initial_cwd,
            git_root: None,
            parent_git_root: None,
            phase: DiscoveryPhase::AwaitingPermissions,
        }
    }

    /// Start discovery in `initial_cwd`; call this once permissions have
    /// been granted. The command to run asks git for the root.
    pub fn start(&mut self, initial_cwd: String) -> (command: Command)
        ensures
            final(self).initial_cwd == initial_cwd,
            final(self).phase == DiscoveryPhase::FindingGitRoot,
            final(self).git_root == old(self).git_root,
            final(self).parent_git_root == old(self).parent_git_root,
            command == (Command::GitToplevel { cwd: initial_cwd }),
    {
        self.initial_cwd = initial_cwd.clone();
        self.phase = DiscoveryPhase::FindingGitRoot;
        Command::GitToplevel { cwd: initial_cwd }
    }

    /// Permissions were denied: discovery has failed.
    pub fn permissions_denied(&mut self)
        ensures
            final(self).phase matches DiscoveryPhase::Failed(message) && message@
                == "Permissions denied"@,
            final(self).initial_cwd == old(self).initial_cwd,
            final(self).git_root == old(self).git_root,
            final(self).parent_git_root == old(self).parent_git_root,
    {
        self.phase = DiscoveryPhase::Failed("Permissions denied".to_owned());
    }

    /// Take the result of the command that was run for `purpose`, and say
    /// which commands are to be run next.
    pub fn handle_command_result(
        &mut self,
        purpose: CommandPurpose,
        exit_code: Option<i32>,
        stdout: &[u8],
        stderr: &[u8],
    ) -> (commands: Vec<Command>)
        ensures
            final(self).initial_cwd == old(self).initial_cwd,
            purpose == CommandPurpose::GitToplevel ==> old(self).after_git_toplevel(
                exit_code,
                stdout@,
                *final(self),
                commands@,
            ),
            purpose == CommandPurpose::GitSuperproject ==> old(self).after_git_superproject(
                exit_code,
                stdout@,
                *final(self),
                commands@,
            ),
            purpose == CommandPurpose::MkdirCrumbeez ==> {
                &&& final(self).phase == old(self).phase.after_mkdir()
                &&& final(self).git_root == old(self).git_root
                &&& final(self).parent_git_root == old(self).parent_git_root
                &&& commands@.len() == 0
            },
    {
        match purpose {
            CommandPurpose::GitToplevel => self.handle_git_toplevel(exit_code, stdout, stderr),
            CommandPurpose::GitSuperproject => self.handle_git_superproject(
                exit_code,
                stdout,
                stderr,
            ),
            CommandPurpose::MkdirCrumbeez => {
                self.handle_mkdir_result(exit_code, stderr);
                Vec::new()
            },
        }
    }

    /// The discovery waits for the answers to the requests for the data
    /// directories of `roots`, one request for each root, and `commands` are
    /// those requests, in the order of the roots and run in the initial
    /// directory.
    pub open spec fn creating(self, roots: Seq<Seq<char>>, commands: Seq<Command>) -> bool {
        &&& self.phase matches DiscoveryPhase::CreatingDirs { pending, dirs } && pending
            == roots.len() && dirs@.len() == roots.len() && forall|i: int|
            0 <= i < roots.len() ==> (#[trigger] dirs@[i])@ == data_dir(roots[i])
        &&& commands.len() == roots.len()
        &&& forall|i: int|
            0 <= i < roots.len() ==> (#[trigger] commands[i]).is_mkdir_for(
                roots[i],
                self.initial_cwd@,
            )
    }

    /// How `after` and `commands` follow from the answer to the question for
    /// the root of the repository. If git reported a root, it is noted and
    /// git is asked for the parent repository, in that root. If not, the
    /// initial directory is taken as the only root and its data directories
    /// are requested.
    pub open spec fn after_git_toplevel(
        self,
        exit_code: Option<i32>,
        stdout: Seq<u8>,
        after: RootDiscovery,
        commands: Seq<Command>,
    ) -> bool {
        &&& after.initial_cwd == self.initial_cwd
        &&& after.parent_git_root == self.parent_git_root
        &&& if reports_path(exit_code, stdout) {
            &&& after.git_root matches Some(root) && root@ == trim_of(lossy(stdout))
            &&& after.phase == DiscoveryPhase::FindingSuperproject
            &&& commands.len() == 1
            &&& commands[0] matches Command::GitSuperproject { cwd } && cwd@ == trim_of(
                lossy(stdout),
            )
        } else {
            &&& after.git_root == self.git_root
            &&& after.creating(seq![self.initial_cwd@], commands)
        }
    }

    /// The roots after the answer to the question for the parent repository:
    /// the root of the repository, if one is known, then the parent
    /// repository, if git reported one.
    pub open spec fn roots_with_parent(self, exit_code: Option<i32>, stdout: Seq<u8>) -> Seq<
        Seq<char>,
    > {
        let own = match self.git_root {
            Some(root) => seq![root@],
            None => Seq::empty(),
        };
        if reports_path(exit_code, stdout) {
            own.push(trim_of(lossy(stdout)))
        } else {
            own
        }
    }

    /// How `after` and `commands` follow from the answer to the question for
    /// the parent repository. The parent repository is noted if git reported
    /// one, and the data directories of every root are requested.
    pub open spec fn after_git_superproject(
        self,
        exit_code: Option<i32>,
        stdout: Seq<u8>,
        after: RootDiscovery,
        commands: Seq<Command>,
    ) -> bool {
        &&& after.initial_cwd == self.initial_cwd
        &&& after.git_root == self.git_root
        &&& if reports_path(exit_code, stdout) {
            after.parent_git_root matches Some(parent) && parent@ == trim_of(lossy(stdout))
        } else {
            after.parent_git_root == self.parent_git_root
        }
        &&& after.creating(self.roots_with_parent(exit_code, stdout), commands)
    }

    /// Take the answer to the question for the root of the repository.
    pub fn handle_git_toplevel(
        &mut self,
        exit_code: Option<i32>,
        stdout: &[u8],
        _stderr: &[u8],
    ) -> (commands: Vec<Command>)
        ensures
            old(self).after_git_toplevel(exit_code, stdout@, *final(self), commands@),
    {
        match reported_path(exit_code, stdout) {
            Some(root) => {
                self.git_root = Some(root.clone());
                self.phase = DiscoveryPhase::FindingSuperproject;
                vec![Command::GitSuperproject { cwd: root }]
            },
            None => {
                let roots = vec![self.initial_cwd.clone()];
                assert(texts(roots@) =~= seq![self.initial_cwd@]);
                self.create_crumbeez_dirs(roots)
            },
        }
    }

    /// Take the answer to the question for the parent repository.
    pub fn handle_git_superproject(
        &mut self,
        exit_code: Option<i32>,
        stdout: &[u8],
        _stderr: &[u8],
    ) -> (commands: Vec<Command>)
        ensures
            old(self).after_git_superproject(exit_code, stdout@, *final(self), commands@),
    {
        let mut roots: Vec<String> = Vec::new();
        match &self.git_root {
            Some(root) => {
                roots.push(root.clone());
            },
            None => {},
        }
        match reported_path(exit_code, stdout) {
            Some(parent) => {
                self.parent_git_root = Some(parent.clone());
                roots.push(parent);
            },
            None => {},
        }
        assert(texts(roots@) =~= old(self).roots_with_parent(exit_code, stdout@));
        self.create_crumbeez_dirs(roots)
    }

    /// Take one answer to a request for directories. Whether the request
    /// succeeded does not matter: the last answer makes the directories
    /// ready.
    pub fn handle_mkdir_result(&mut self, _exit_code: Option<i32>, _stderr: &[u8])
        ensures
            final(self).phase == old(self).phase.after_mkdir(),
            final(self).initial_cwd == old(self).initial_cwd,
            final(self).git_root == old(self).git_root,
            final(self).parent_git_root == old(self).parent_git_root,
    {
        let mut phase = DiscoveryPhase::AwaitingPermissions;
        std::mem::swap(&mut self.phase, &mut phase);
        self.phase = match phase {
            DiscoveryPhase::CreatingDirs { pending, dirs } => {
                if pending <= 1 {
                    DiscoveryPhase::Ready { dirs }
                } else {
                    DiscoveryPhase::CreatingDirs { pending: pending - 1, dirs }
                }
            },
            other => other,
        };
    }

    /// Request the data directories of each of `roots`, and wait for as many
    /// answers.
    pub fn create_crumbeez_dirs(&mut self, roots: Vec<String>) -> (commands: Vec<Command>)
        ensures
            final(self).creating(texts(roots@), commands@),
            final(self).initial_cwd == old(self).initial_cwd,
            final(self).git_root == old(self).git_root,
            final(self).parent_git_root == old(self).parent_git_root,
    {
        let count = roots.len();
        let mut dirs: Vec<String> = Vec::new();
        let mut commands: Vec<Command> = Vec::new();
        let mut i: usize = 0;
        while i < count
            invariant
                0 <= i <= count == roots@.len(),
                dirs@.len() == i,
                commands@.len() == i,
                forall|j: int| 0 <= j < i ==> (#[trigger] dirs@[j])@ == data_dir(roots@[j]@),
                forall|j: int|
                    0 <= j < i ==> (#[trigger] commands@[j]).is_mkdir_for(
                        roots@[j]@,
                        self.initial_cwd@,
                    ),
                *self == *old(self),
            decreases count - i,
        {
            let root = roots[i].as_str();
            dirs.push(crumbeez_dir(root));
            commands.push(
                Command::Mkdir { dirs: required_dirs(root), cwd: self.initial_cwd.clone() },
            );
            i += 1;
        }
        self.phase = DiscoveryPhase::CreatingDirs { pending: count, dirs };
        commands
    }
}

} // verus!
