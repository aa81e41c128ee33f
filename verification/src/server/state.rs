//! What the server keeps for its next start.
use vstd::prelude::*;

use crate::ipc::message::TerminalInfo;
use crate::text::{chars_of, concat2, concat3, copy_list};

verus! {

/// What is kept of the whole server.
#[derive(Debug)]
pub struct ServerState {
    pub terminals: Vec<TerminalMeta>,
    pub views: Vec<ViewMeta>,
    pub active_view: Option<String>,
    pub synced_terminals: Vec<String>,
}

/// What is kept of a terminal.
#[derive(Debug, Clone)]
pub struct TerminalMeta {
    pub id: String,
    pub name: Option<String>,
    pub created_at: String,
}

/// What is kept of a view.
#[derive(Debug)]
pub struct ViewMeta {
    pub id: String,
    pub name: Option<String>,
    pub terminal_ids: Vec<String>,
    pub layout: serde_json::Value,
    pub focused: String,
    pub created_at: String,
}

/// The file that the state is kept in, in a directory.
pub open spec fn state_file(dir: Seq<char>) -> Seq<char> {
    if dir.len() == 0 || dir.last() == '/' {
        dir + "state.json"@
    } else {
        dir + "/"@ + "state.json"@
    }
}

/// The file that the state is kept in.
pub fn state_path(socket_dir: &str) -> (path: String)
    ensures
        path@ == state_file(socket_dir@),
{
    let chars = chars_of(socket_dir);
    if chars.len() == 0 || chars[chars.len() - 1] == '/' {
        concat2(socket_dir, "state.json")
    } else {
        concat3(socket_dir, "/", "state.json")
    }
}

impl Default for ServerState {
    /// Nothing to keep.
    fn default() -> (state: Self)
        ensures
            state.terminals@.len() == 0,
            state.views@.len() == 0,
            state.active_view is None,
            state.synced_terminals@.len() == 0,
    {
        ServerState {
            terminals: Vec::new(),
            views: Vec::new(),
            active_view: None,
            synced_terminals: Vec::new(),
        }
    }
}

/// What is kept of listed terminals.
pub open spec fn metas(terminals: Seq<TerminalInfo>) -> Seq<TerminalMeta> {
    Seq::new(
        terminals.len(),
        |i: int| TerminalMeta {
            id: terminals[i].id,
            name: terminals[i].name,
            created_at: terminals[i].created_at,
        },
    )
}

/// Gathers what is to be kept: all terminals, all views and the shared
/// terminals. Which view is active is not kept.
pub fn snapshot(terminals: Vec<TerminalInfo>, views: Vec<ViewMeta>, synced: &Vec<String>) -> (state:
    ServerState)
    ensures
        state.terminals@ == metas(terminals@),
        state.views@ == views@,
        state.active_view is None,
        state.synced_terminals@ == synced@,
{
    let ghost all = terminals@;
    let mut terminals = terminals;
    let mut kept: Vec<TerminalMeta> = Vec::new();
    let ghost mut done: nat = 0;
    while terminals.len() > 0
        invariant
            done + terminals@.len() == all.len(),
            terminals@ == all.skip(done as int),
            kept@ == metas(all.take(done as int)),
        decreases terminals@.len(),
    {
        let ghost before = kept@;
        let t = terminals.remove(0);
        kept.push(TerminalMeta { id: t.id, name: t.name, created_at: t.created_at });
        proof {
            assert(t == all[done as int]);
            done = done + 1;
            assert(terminals@ =~= all.skip(done as int));
            assert(kept@ =~= metas(all.take(done as int)));
        }
    }
    assert(all.take(done as int) =~= all);
    ServerState {
        terminals: kept,
        views,
        active_view: None,
        synced_terminals: copy_list(synced),
    }
}

/// The state is kept in a file of its own in the directory, with exactly one
/// slash between the directory and the file where the directory has a name.
pub proof fn state_is_kept_in_its_directory(dir: Seq<char>)
    ensures
        state_file(dir + seq!['/']) == dir + seq!['/'] + "state.json"@,
        dir.len() > 0 && dir.last() != '/' ==> state_file(dir) == state_file(dir + seq!['/']),
        state_file(Seq::empty()) == "state.json"@,
{
    reveal_strlit("/");
    assert((dir + seq!['/']).last() == '/');
    assert("/"@ =~= seq!['/']);
    assert(dir + "/"@ + "state.json"@ =~= dir + seq!['/'] + "state.json"@);
    assert(Seq::<char>::empty() + "state.json"@ =~= "state.json"@);
}

/// Every listed terminal is kept, in its place, with its identifier, its name and
/// when it was made.
pub proof fn every_terminal_is_kept(terminals: Seq<TerminalInfo>)
    ensures
        metas(terminals).len() == terminals.len(),
        forall|i: int|
            0 <= i < terminals.len() ==> (#[trigger] metas(terminals)[i]).id == terminals[i].id
                && metas(terminals)[i].name == terminals[i].name && metas(terminals)[i].created_at
                == terminals[i].created_at,
{
}

} // verus!
