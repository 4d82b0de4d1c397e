//! Workspace configuration kept by the command-line front end: the current
//! project selection, the list of known projects, and the stable name of
//! each command.

use vstd::prelude::*;

use crate::doc::{str_eq, tags_view};
use crate::text::{chars_of, is_ws, is_ws_exec};

verus! {

/// The commands the front end dispatches on.
#[derive(Clone, Copy, Debug, PartialEq, Eq, Structural)]
pub enum Commands {
    AgentDoc,
    Init,
    Put,
    Get,
    Cat,
    Find,
    Ls,
    Rm,
    Gc,
    Web,
    WebDev,
    Sync,
    DebugBundle,
    AgentConfig,
    Project,
}

/// The stable name a command is logged and dispatched under.
pub fn command_name(command: &Commands) -> (r: &'static str)
    ensures
        *command == Commands::AgentDoc ==> r@ == "agent-doc"@,
        *command == Commands::Init ==> r@ == "init"@,
        *command == Commands::Put ==> r@ == "put"@,
        *command == Commands::Get ==> r@ == "get"@,
        *command == Commands::Cat ==> r@ == "cat"@,
        *command == Commands::Find ==> r@ == "find"@,
        *command == Commands::Ls ==> r@ == "ls"@,
        *command == Commands::Rm ==> r@ == "rm"@,
        *command == Commands::Gc ==> r@ == "gc"@,
        *command == Commands::Web ==> r@ == "web"@,
        *command == Commands::WebDev ==> r@ == "web-dev"@,
        *command == Commands::Sync ==> r@ == "sync"@,
        *command == Commands::DebugBundle ==> r@ == "debug-bundle"@,
        *command == Commands::AgentConfig ==> r@ == "agent-config"@,
        *command == Commands::Project ==> r@ == "project"@,
{
    match command {
        Commands::AgentDoc => "agent-doc",
        Commands::Init => "init",
        Commands::Put => "put",
        Commands::Get => "get",
        Commands::Cat => "cat",
        Commands::Find => "find",
        Commands::Ls => "ls",
        Commands::Rm => "rm",
        Commands::Gc => "gc",
        Commands::Web => "web",
        Commands::WebDev => "web-dev",
        Commands::Sync => "sync",
        Commands::DebugBundle => "debug-bundle",
        Commands::AgentConfig => "agent-config",
        Commands::Project => "project",
    }
}

/// A string of nothing but whitespace (or nothing at all).
pub open spec fn is_blank(s: Seq<char>) -> bool {
    forall|i: int| 0 <= i < s.len() ==> is_ws(#[trigger] s[i])
}

fn is_blank_exec(s: &str) -> (r: bool)
    ensures
        r == is_blank(s@),
{
    let chars = chars_of(s);
    let mut i: usize = 0;
    while i < chars.len()
        invariant
            0 <= i <= chars@.len(),
            chars@ == s@,
            forall|m: int| 0 <= m < i ==> is_ws(#[trigger] s@[m]),
        decreases chars@.len() - i,
    {
        if !is_ws_exec(chars[i]) {
            assert(!is_blank(s@));
            return false;
        }
        i += 1;
    }
    true
}

/// The front end's project selection: the current project, if one was
/// chosen, and every project name seen so far.
#[derive(Debug)]
pub struct ProjectConfig {
    pub current: Option<String>,
    pub known: Vec<String>,
}

impl ProjectConfig {
    /// Whether `project` is already listed among the known projects.
    pub open spec fn knows(self, project: Seq<char>) -> bool {
        exists|i: int| 0 <= i < self.known@.len() && (#[trigger] self.known@[i])@ == project
    }

    /// Records a project name: a blank name is ignored, a name already
    /// listed is kept once, and a new name is appended to the list.
    pub fn ensure_known(&mut self, project: &str)
        ensures
            is_blank(project@) ==> final(self).current == old(self).current && final(self).known@
                == old(self).known@,
            !is_blank(project@) && old(self).knows(project@) ==> final(self).current == old(
                self,
            ).current && final(self).known@ == old(self).known@,
            !is_blank(project@) && !old(self).knows(project@) ==> final(self).current == old(
                self,
            ).current && tags_view(final(self).known@) == tags_view(old(self).known@).push(
                project@,
            ),
    {
        if is_blank_exec(project) {
            return ;
        }
        let ghost pre = *self;
        let mut i: usize = 0;
        while i < self.known.len()
            invariant
                0 <= i <= self.known@.len(),
                *self == pre,
                forall|m: int| 0 <= m < i ==> (#[trigger] self.known@[m])@ != project@,
            decreases self.known@.len() - i,
        {
            if str_eq(self.known[i].as_str(), project) {
                assert(pre.knows(project@));
                return ;
            }
            i += 1;
        }
        assert(!pre.knows(project@));
        self.known.push(project.to_owned());
        proof {
            assert(tags_view(self.known@) =~= tags_view(pre.known@).push(project@));
        }
    }
}

impl Default for ProjectConfig {
    /// The initial configuration: no current selection, and only the
    /// catch-all project known.
    fn default() -> (r: Self)
        ensures
            r.current is None,
            r.known@.len() == 1,
            r.known@[0]@ == "default"@,
    {
        let mut known: Vec<String> = Vec::new();
        known.push("default".to_owned());
        ProjectConfig { current: None, known }
    }
}

} // verus!
