//! The MCP servers the user registered and the tools they offer.
use crate::model::copy_string;
use crate::state::{next_generation, App};
use crate::text::{dec, decimal, str_equals, trim, trim_seq};
use crate::workspace::load_generation;
use vstd::prelude::*;

verus! {

/// A JSON value, carried through as an MCP server described it.
#[verifier::external_type_specification]
#[verifier::external_body]
pub struct ExJsonValue(serde_json::Value);

/// An MCP server: the name it is listed under and the command that starts it.
pub struct McpServer {
    pub name: String,
    pub command: String,
}

/// A tool an MCP server offers, with the JSON schema of its arguments.
pub struct McpTool {
    pub server_name: String,
    pub name: String,
    pub description: String,
    pub input_schema: serde_json::Value,
}

/// A request to list the tools of `server`; the answer comes back under
/// `generation`.
pub struct McpToolLoad {
    pub server: McpServer,
    pub generation: u64,
}

/// Whether a server named `name` is registered.
pub open spec fn server_named(servers: Seq<McpServer>, name: Seq<char>) -> bool {
    exists|i: int| 0 <= i < servers.len() && (#[trigger] servers[i]).name@ == name
}

/// Whether a tool-load generation was ever handed out for server `name`.
pub open spec fn generation_recorded(entries: Seq<(String, u64)>, name: Seq<char>) -> bool {
    exists|i: int| 0 <= i < entries.len() && (#[trigger] entries[i]).0@ == name
}

/// Whether an answer for server `name` under generation `g` is the one awaited:
/// the server is still registered and `g` is its latest generation.
pub open spec fn is_current_load(app: App, name: Seq<char>, g: u64) -> bool {
    &&& server_named(app.mcp_servers@, name)
    &&& generation_recorded(app.mcp_tool_load_generations@, name)
    &&& load_generation(app.mcp_tool_load_generations@, name) == g
}

/// The tools that do not belong to server `name`.
pub open spec fn not_from(name: Seq<char>) -> spec_fn(McpTool) -> bool {
    |t: McpTool| t.server_name@ != name
}

/// Whether `f`'s tool-load generations are `o`'s with one more handed out to
/// server `name`.
pub open spec fn generation_advanced(o: Seq<(String, u64)>, f: Seq<(String, u64)>, name: Seq<char>) -> bool {
    &&& generation_recorded(f, name)
    &&& load_generation(f, name) == next_generation(load_generation(o, name))
    &&& forall|other: Seq<char>|
        other != name ==> #[trigger] load_generation(f, other) == load_generation(o, other)
            && generation_recorded(f, other) == generation_recorded(o, other)
}

/// Whether `f` and `r` are the outcome of registering the server typed into
/// the MCP inputs of `o` (see `add_mcp_server`).
pub open spec fn mcp_server_added(o: App, f: App, r: Option<McpToolLoad>) -> bool {
    let name = trim_seq(o.mcp_input.name_input@);
    let command = trim_seq(o.mcp_input.command_input@);
    &&& (name.len() == 0 || command.len() == 0) ==> {
        &&& r is None
        &&& f.status@ == "MCP 서버 이름과 명령을 모두 입력하세요."@
        &&& f == (App { status: f.status, ..o })
    }
    &&& (name.len() > 0 && command.len() > 0 && server_named(o.mcp_servers@, name)) ==> {
        &&& r is None
        &&& f.status@ == "MCP 서버 이름이 이미 사용 중입니다: "@ + name
        &&& f == (App { status: f.status, ..o })
    }
    &&& (name.len() > 0 && command.len() > 0 && !server_named(o.mcp_servers@, name)) ==> {
        &&& r matches Some(load) && {
            &&& load.server.name@ == name
            &&& load.server.command@ == command
            &&& load.generation == load_generation(f.mcp_tool_load_generations@, name)
        }
        &&& f.mcp_servers@.len() == o.mcp_servers@.len() + 1
        &&& f.mcp_servers@.drop_last() == o.mcp_servers@
        &&& f.mcp_servers@.last().name@ == name
        &&& f.mcp_servers@.last().command@ == command
        &&& generation_advanced(
            o.mcp_tool_load_generations@,
            f.mcp_tool_load_generations@,
            name,
        )
        &&& f.mcp_input.name_input@.len() == 0
        &&& f.mcp_input.command_input@.len() == 0
        &&& f.status@ == "MCP 서버 추가됨: "@ + name + " — tool 목록 로드 중…"@
        &&& f == (App {
            mcp_servers: f.mcp_servers,
            mcp_tool_load_generations: f.mcp_tool_load_generations,
            mcp_input: f.mcp_input,
            status: f.status,
            ..o
        })
    }
}

/// Whether `f` is `o` with server `idx` removed, with the tools it offered;
/// its tool lists still on the way are made stale.
pub open spec fn mcp_server_removed(o: App, f: App, idx: int) -> bool {
    let name = o.mcp_servers@[idx].name@;
    &&& f.mcp_servers@ == o.mcp_servers@.remove(idx)
    &&& generation_advanced(o.mcp_tool_load_generations@, f.mcp_tool_load_generations@, name)
    &&& f.mcp_tools@ == o.mcp_tools@.filter(not_from(name))
    &&& f.status@ == "MCP 서버 제거됨: "@ + name
    &&& f == (App {
        mcp_servers: f.mcp_servers,
        mcp_tool_load_generations: f.mcp_tool_load_generations,
        mcp_tools: f.mcp_tools,
        status: f.status,
        ..o
    })
}

/// Whether no two registered servers share a name.
pub open spec fn server_names_unique(servers: Seq<McpServer>) -> bool {
    forall|i: int, j: int|
        0 <= i < servers.len() && 0 <= j < servers.len() && i != j ==> (#[trigger] servers[i]).name@
            != (#[trigger] servers[j]).name@
}

fn has_server(servers: &Vec<McpServer>, name: &str) -> (r: bool)
    ensures
        r == server_named(servers@, name@),
{
    let mut i: usize = 0;
    while i < servers.len()
        invariant
            i <= servers@.len(),
            forall|j: int| 0 <= j < i ==> (#[trigger] servers@[j]).name@ != name@,
        decreases servers@.len() - i,
    {
        if str_equals(servers[i].name.as_str(), name) {
            return true;
        }
        i = i + 1;
    }
    false
}

fn has_generation(entries: &Vec<(String, u64)>, name: &str) -> (r: bool)
    ensures
        r == generation_recorded(entries@, name@),
{
    let mut i: usize = 0;
    while i < entries.len()
        invariant
            i <= entries@.len(),
            forall|j: int| 0 <= j < i ==> (#[trigger] entries@[j]).0@ != name@,
        decreases entries@.len() - i,
    {
        if str_equals(entries[i].0.as_str(), name) {
            return true;
        }
        i = i + 1;
    }
    false
}

proof fn lemma_recorded_push(o: Seq<(String, u64)>, f: Seq<(String, u64)>, name: Seq<char>, x: Seq<char>)
    requires
        f.len() > 0,
        f.drop_last() == o,
        f.last().0@ == name,
    ensures
        generation_recorded(f, x) == (generation_recorded(o, x) || x == name),
{
    if generation_recorded(o, x) {
        let i = choose|i: int| 0 <= i < o.len() && (#[trigger] o[i]).0@ == x;
        assert(f[i] == o[i]);
    }
    if x == name {
        assert(f[f.len() - 1] == f.last());
    }
    if generation_recorded(f, x) && x != name {
        let i = choose|i: int| 0 <= i < f.len() && (#[trigger] f[i]).0@ == x;
        assert(i < f.len() - 1);
        assert(o[i] == f[i]);
    }
}

fn remove_tools_of(tools: &mut Vec<McpTool>, name: &str)
    ensures
        final(tools)@ == old(tools)@.filter(not_from(name@)),
{
    let ghost orig = tools@;
    let ghost keep = not_from(name@);
    let mut rest: Vec<McpTool> = Vec::new();
    std::mem::swap(&mut rest, tools);
    let mut k: usize = 0;
    assert(orig.len() == rest.len());
    assert(orig.take(0).filter(keep) =~= Seq::<McpTool>::empty()) by {
        reveal(Seq::filter);
    }
    while rest.len() > 0
        invariant
            k <= orig.len() <= usize::MAX,
            rest@.len() == orig.len() - k,
            rest@ == orig.skip(k as int),
            tools@ == orig.take(k as int).filter(keep),
            keep == not_from(name@),
        decreases rest@.len(),
    {
        let t = rest.remove(0);
        proof {
            assert(orig.skip(k as int)[0] == orig[k as int]);
            assert(orig.skip(k as int).drop_first() =~= orig.skip(k + 1));
            crate::seqs::lemma_filter_take_step(orig, keep, k as int);
        }
        if !str_equals(t.server_name.as_str(), name) {
            tools.push(t);
        }
        k = k + 1;
    }
    assert(orig.take(orig.len() as int) =~= orig);
}

impl App {
    /// Advances the tool-load generation of server `name` (see
    /// `generation_advanced`) and returns it.
    fn advance_load_generation(&mut self, name: &str) -> (g: u64)
        ensures
            generation_advanced(
                old(self).mcp_tool_load_generations@,
                final(self).mcp_tool_load_generations@,
                name@,
            ),
            g == load_generation(final(self).mcp_tool_load_generations@, name@),
            *final(self) == (App {
                mcp_tool_load_generations: final(self).mcp_tool_load_generations,
                ..*old(self)
            }),
    {
        let g = self.next_mcp_tool_load_generation(name);
        proof {
            let o = old(self).mcp_tool_load_generations@;
            let f = self.mcp_tool_load_generations@;
            lemma_recorded_push(o, f, name@, name@);
            assert forall|other: Seq<char>| other != name@ implies #[trigger] load_generation(
                f,
                other,
            ) == load_generation(o, other) && generation_recorded(f, other) == generation_recorded(
                o,
                other,
            ) by {
                lemma_recorded_push(o, f, name@, other);
            }
        }
        g
    }

    /// Registers the server typed into the MCP inputs, both trimmed. A blank
    /// name or command, or a name already in use, is refused with a status
    /// message. Otherwise the server is added, the inputs are cleared, a new
    /// tool-load generation is handed out for it, and the request to list its
    /// tools is returned; the caller saves the servers before sending it.
    pub fn add_mcp_server(&mut self) -> (r: Option<McpToolLoad>)
        ensures
            mcp_server_added(*old(self), *final(self), r),
    {
        let name = String::from_str(trim(self.mcp_input.name_input.as_str()));
        let command = String::from_str(trim(self.mcp_input.command_input.as_str()));
        if name.as_str().unicode_len() == 0 || command.as_str().unicode_len() == 0 {
            self.status = String::from_str("MCP 서버 이름과 명령을 모두 입력하세요.");
            return None;
        }
        if has_server(&self.mcp_servers, name.as_str()) {
            let mut st = String::from_str("MCP 서버 이름이 이미 사용 중입니다: ");
            st.append(name.as_str());
            self.status = st;
            return None;
        }
        let generation = self.advance_load_generation(name.as_str());
        let ghost before = self.mcp_servers@;
        self.mcp_servers.push(McpServer { name: copy_string(&name), command: copy_string(&command) });
        assert(self.mcp_servers@.drop_last() =~= before);
        self.mcp_input.name_input = String::new();
        self.mcp_input.command_input = String::new();
        let mut st = String::from_str("MCP 서버 추가됨: ");
        st.append(name.as_str());
        st.append(" — tool 목록 로드 중…");
        self.status = st;
        Some(McpToolLoad { server: McpServer { name, command }, generation })
    }

    /// Reports that the registered servers could not be saved; the tool list
    /// of the server just added is then not loaded.
    pub fn report_mcp_save_failure(&mut self, error: &str)
        ensures
            final(self).status@ == "MCP 저장 실패: "@ + error@,
            *final(self) == (App { status: final(self).status, ..*old(self) }),
    {
        let mut st = String::from_str("MCP 저장 실패: ");
        st.append(error);
        self.status = st;
    }

    /// Removes server `idx`, if there is one, with the tools it offered; its
    /// tool lists still on the way are made stale. Returns whether a server
    /// was removed, in which case the caller saves the servers.
    pub fn remove_mcp_server(&mut self, idx: usize) -> (r: bool)
        ensures
            idx >= old(self).mcp_servers@.len() ==> !r && *final(self) == *old(self),
            idx < old(self).mcp_servers@.len() ==> r && mcp_server_removed(
                *old(self),
                *final(self),
                idx as int,
            ),
    {
        if idx >= self.mcp_servers.len() {
            return false;
        }
        let removed = self.mcp_servers.remove(idx);
        self.advance_load_generation(removed.name.as_str());
        remove_tools_of(&mut self.mcp_tools, removed.name.as_str());
        let mut st = String::from_str("MCP 서버 제거됨: ");
        st.append(removed.name.as_str());
        self.status = st;
        true
    }

    /// Takes the tool list of server `server_name` loaded under `generation`.
    /// When it is the awaited answer (see `is_current_load`) it replaces the
    /// tools that server offered before and the count is reported; a stale
    /// answer changes nothing.
    pub fn on_mcp_tools_loaded(&mut self, generation: u64, server_name: &str, tools: Vec<McpTool>)
        ensures
            !is_current_load(*old(self), server_name@, generation) ==> *final(self) == *old(self),
            is_current_load(*old(self), server_name@, generation) ==> {
                &&& final(self).mcp_tools@ == old(self).mcp_tools@.filter(not_from(server_name@))
                    + tools@
                &&& final(self).status@ == "MCP ["@ + server_name@ + "] tool "@ + dec(
                    tools@.len(),
                ) + "개 로드 완료"@
                &&& *final(self) == (App {
                    mcp_tools: final(self).mcp_tools,
                    status: final(self).status,
                    ..*old(self)
                })
            },
    {
        if !self.is_current_load_of(generation, server_name) {
            return;
        }
        remove_tools_of(&mut self.mcp_tools, server_name);
        let count = tools.len();
        let mut tools = tools;
        let ghost kept = self.mcp_tools@;
        let ghost added = tools@;
        self.mcp_tools.append(&mut tools);
        assert(self.mcp_tools@ =~= kept + added);
        let mut st = String::from_str("MCP [");
        st.append(server_name);
        st.append("] tool ");
        st.append(decimal(count as u64).as_str());
        st.append("개 로드 완료");
        self.status = st;
    }

    /// Reports that listing the tools of server `server_name` under
    /// `generation` failed, unless that answer is stale.
    pub fn on_mcp_tools_failed(&mut self, generation: u64, server_name: &str, message: &str)
        ensures
            !is_current_load(*old(self), server_name@, generation) ==> *final(self) == *old(self),
            is_current_load(*old(self), server_name@, generation) ==> {
                &&& final(self).status@ == "MCP tool 로드 실패: "@ + message@
                &&& *final(self) == (App { status: final(self).status, ..*old(self) })
            },
    {
        if !self.is_current_load_of(generation, server_name) {
            return;
        }
        let mut st = String::from_str("MCP tool 로드 실패: ");
        st.append(message);
        self.status = st;
    }

    fn is_current_load_of(&self, generation: u64, server_name: &str) -> (r: bool)
        ensures
            r == is_current_load(*self, server_name@, generation),
    {
        has_server(&self.mcp_servers, server_name) && has_generation(
            &self.mcp_tool_load_generations,
            server_name,
        ) && crate::workspace::load_generation_of(&self.mcp_tool_load_generations, server_name)
            == generation
    }
}

impl App {
    /// Takes the typed MCP server name.
    pub fn update_mcp_name_input(&mut self, value: String)
        ensures
            *final(self) == (App {
                mcp_input: crate::state::McpInput { name_input: value, ..old(self).mcp_input },
                ..*old(self)
            }),
    {
        self.mcp_input.name_input = value;
    }

    /// Takes the typed MCP server command.
    pub fn update_mcp_command_input(&mut self, value: String)
        ensures
            *final(self) == (App {
                mcp_input: crate::state::McpInput { command_input: value, ..old(self).mcp_input },
                ..*old(self)
            }),
    {
        self.mcp_input.command_input = value;
    }
}

} // verus!
