//! Starting the local inference runtime. Starting alternates decisions with
//! outside work, so it runs in steps: `start_inference` checks what the
//! engine needs and either stops with the reason, asks for the models of an
//! Ollama daemon, asks for the TabbyAPI configuration to be written, or hands
//! back the command to check; `on_tabby_config_written` continues after the
//! configuration is written; `on_runtime_checked` decides, once it is known
//! whether the command's program exists, whether to spawn it.
use crate::inference::{
    custom_start, first_word_or_local, local_model_available, localhost_url, localhost_url_of,
    parsed_view, spawn_command,
};
use crate::mention::views;
use crate::paths::{join, join_path, Platform};
use crate::model::{copy_string, is_local_dir_engine, Effect, InferenceEngine};
use crate::runtime::{expected_binary, expected_binary_name};
use crate::state::{next_generation, App};
use crate::tabbyapi::{launcher_verdict, validate_tabbyapi_launcher_path, PathKind};
use crate::text::{opt_view, parse_u16_spec, str_equals, trim, trim_seq};
use vstd::prelude::*;

verus! {

/// Automatic attempts to list the provider's models after a runtime starts.
pub const TABBY_CONNECT_RETRIES_AFTER_START: u8 = 3;

/// Seconds to wait after spawning a runtime before listing its models.
pub const START_PROBE_DELAY_SECS: u64 = 5;

/// What is known from outside when a start is requested.
pub struct StartFacts {
    /// The engine's usual port, used when the port input is not a port.
    pub default_port: u16,
    /// The engine's display name.
    pub engine_label: String,
    /// What the trimmed binary path names on disk.
    pub binary_kind: PathKind,
    /// The custom start command split into words, or why it could not be.
    pub parsed_command: Result<Vec<String>, String>,
    /// The TabbyAPI model folder found for the trimmed selected model, if any.
    pub tabbyapi_model_dir: Option<String>,
    /// Whether the trimmed selected model names an existing path.
    pub model_path_exists: bool,
    /// The model folders of the model directory.
    pub downloaded: Vec<String>,
    /// The command line the engine serves the selected model with on the
    /// start port, if it has one.
    pub engine_command: Option<Vec<String>>,
    /// The engine binary found inside the binary path when that path is a
    /// directory.
    pub dir_binary: Option<String>,
}

/// The model path an engine is started with: the model name itself for
/// TabbyML and TabbyAPI, which look it up themselves, else the model joined
/// to the model directory `model_dir` (the directory input with `~`
/// expanded), as `Path::join` joins them.
pub open spec fn engine_model_path(p: Platform, eng: InferenceEngine, model: Seq<char>, model_dir: Seq<char>) -> Seq<char> {
    if eng == InferenceEngine::TabbyMl || eng == InferenceEngine::TabbyApi {
        model
    } else {
        join_path(p, model_dir, model)
    }
}

/// The model path an engine is started with (see `engine_model_path`).
pub fn engine_model_path_of(p: Platform, eng: InferenceEngine, model: &str, model_dir: &str) -> (r: String)
    ensures
        r@ == engine_model_path(p, eng, model@, model_dir@),
{
    if matches!(eng, InferenceEngine::TabbyMl | InferenceEngine::TabbyApi) {
        String::from_str(model)
    } else {
        join(p, model_dir, model)
    }
}

/// A command to be checked before it is spawned: the program, its arguments,
/// its working directory, and the engine program it stands for.
pub struct RuntimeCheck {
    pub program: String,
    pub args: Vec<String>,
    pub work_dir: Option<String>,
    pub hint: String,
}

/// What a start step asks for next.
pub enum StartStep {
    /// Nothing: the start is over, the status says why.
    Done,
    /// List the models of the provider (see `App::fetch_tabby_models`).
    FetchModels,
    /// Write the TabbyAPI configuration for `launcher` serving `model` on
    /// `port`, then report to `App::on_tabby_config_written`.
    WriteTabbyConfig { launcher: String, model: String, port: u16 },
    /// Check whether the program exists, then report to
    /// `App::on_runtime_checked`.
    CheckRuntime(RuntimeCheck),
}

/// A runtime to spawn, and the retry generation of the model listing to run
/// `delay_secs` seconds after it starts.
pub struct SpawnRequest {
    pub program: String,
    pub args: Vec<String>,
    pub work_dir: Option<String>,
    pub retry_generation: u64,
    pub delay_secs: u64,
}

/// The port a start uses: the typed port, or the engine's usual one.
pub open spec fn start_port(app: App, default_port: u16) -> u16 {
    match parse_u16_spec(trim_seq(app.inference_port_input@)) {
        Some(p) => p,
        None => default_port,
    }
}

/// The message when the TabbyAPI model folder is incomplete.
pub open spec fn incomplete_model_text(model: Seq<char>) -> Seq<char> {
    "TabbyAPI 모델 폴더가 완전하지 않습니다: "@ + model
        + " (config.json과 실제 모델 가중치 파일이 필요합니다.)"@
}

/// The message when TabbyML is asked to serve a local EXL2 folder.
pub open spec fn exl2_for_tabbyapi_text() -> Seq<char> {
    "EXL2 로컬 폴더는 TabbyAPI용입니다. TabbyAPI(Start.bat 또는 python main.py)를 실행한 뒤 Provider URL을 http://localhost:5000 로 연결 테스트해 주세요."@
}

/// The message when the selected local model is not in the model directory.
pub open spec fn local_model_missing_text() -> Seq<char> {
    "Selected local model was not found in the current model directory. Verify Models > download status and Runtime > model directory/path, then try Start again."@
}

/// Whether `f` and `effects` are `o` once the provider URL points at the
/// runtime on `port`, and a blank provider label takes the first word of the
/// engine's name `label` (see `App::set_inference_url_and_label`).
pub open spec fn endpoint_set(o: App, f: App, port: u16, label: Seq<char>, effects: Seq<Effect>) -> bool {
    let relabel = trim_seq(o.openai_compat_label@).len() == 0;
    &&& f.tabby_url_input@ == localhost_url(port)
    &&& relabel ==> f.openai_compat_label@ == first_word_or_local(label)
    &&& !relabel ==> f.openai_compat_label == o.openai_compat_label
    &&& effects.len() == if relabel {
        2int
    } else {
        1int
    }
    &&& effects[0] matches Effect::PersistTabbyBaseUrl(u) && u@ == localhost_url(port)
    &&& relabel ==> (effects[1] matches Effect::PersistOpenAiCompatLabel(l) && l@
        == first_word_or_local(label))
    &&& f == (App { tabby_url_input: f.tabby_url_input, openai_compat_label: f.openai_compat_label, ..o })
}

/// Whether `step` checks the command `program` `args` as the runtime spawns it
/// (see `spawn_command`), given the outside facts.
pub open spec fn checks_command(o: App, program: Seq<char>, args: Seq<Seq<char>>, facts: StartFacts, step: StartStep) -> bool {
    step matches StartStep::CheckRuntime(c) && {
        &&& (c.program@, views(c.args@), opt_view(c.work_dir)) == spawn_command(
            o,
            program,
            args,
            facts.binary_kind == PathKind::Directory,
            opt_view(facts.dir_binary),
        )
        &&& c.hint@ == program
    }
}

/// Whether `f`, `step` and `effects` launch `program` `args` from `o`: the
/// endpoint follows the port and the command is to be checked.
pub open spec fn launched(o: App, f: App, port: u16, program: Seq<char>, args: Seq<Seq<char>>, facts: StartFacts, step: StartStep, effects: Seq<Effect>) -> bool {
    endpoint_set(o, f, port, facts.engine_label@, effects) && checks_command(o, program, args, facts, step)
}

/// Whether `f`, `step` and `effects` follow from `o` once the engine's command
/// line is known: none stops silently, otherwise its first word is the program
/// and the rest its arguments.
pub open spec fn composed(o: App, f: App, port: u16, facts: StartFacts, step: StartStep, effects: Seq<Effect>) -> bool {
    match facts.engine_command {
        None => step is Done && effects.len() == 0 && f == o,
        Some(cmd) => {
            let words = views(cmd@);
            let program = if words.len() > 0 {
                words[0]
            } else {
                Seq::<char>::empty()
            };
            let args = if words.len() > 0 {
                words.drop_first()
            } else {
                Seq::<Seq<char>>::empty()
            };
            launched(o, f, port, program, args, facts, step, effects)
        },
    }
}

/// Whether `f`, `step` and `effects` stop the start of `o` with message `m` in
/// the status and, when `tabby` says so, in the provider status.
pub open spec fn stopped_with(o: App, f: App, m: Seq<char>, tabby: bool, step: StartStep, effects: Seq<Effect>) -> bool {
    &&& step is Done
    &&& effects.len() == 0
    &&& f.status@ == m
    &&& tabby ==> (f.tabby_status matches Some(Err(t)) && t@ == m) && f == (App {
        status: f.status,
        tabby_status: f.tabby_status,
        ..o
    })
    &&& !tabby ==> f == (App { status: f.status, ..o })
}

/// What the first start step does (see the module documentation).
pub open spec fn start_begun(o: App, f: App, facts: StartFacts, step: StartStep, effects: Seq<Effect>) -> bool {
    let port = start_port(o, facts.default_port);
    let model = trim_seq(o.inference_selected_model@);
    let eng = o.inference_engine;
    if o.inference_pid is Some {
        stopped_with(o, f, "이미 실행 중"@, false, step, effects)
    } else if eng == InferenceEngine::Ollama {
        let relabel = trim_seq(o.openai_compat_label@).len() == 0;
        &&& step is FetchModels
        &&& f.tabby_url_input@ == localhost_url(port)
        &&& relabel ==> f.openai_compat_label@ == "Ollama"@
        &&& !relabel ==> f.openai_compat_label == o.openai_compat_label
        &&& f.status@ == "Ollama daemon endpoint 등록 — 연결 테스트"@
        &&& effects.len() == if relabel {
            2int
        } else {
            1int
        }
        &&& effects[0] matches Effect::PersistTabbyBaseUrl(u) && u@ == localhost_url(port)
        &&& relabel ==> (effects[1] matches Effect::PersistOpenAiCompatLabel(l) && l@ == "Ollama"@)
        &&& f == (App {
            tabby_url_input: f.tabby_url_input,
            openai_compat_label: f.openai_compat_label,
            status: f.status,
            ..o
        })
    } else if eng == InferenceEngine::Custom {
        let c = custom_start(o, parsed_view(facts.parsed_command));
        match c.0 {
            None => stopped_with(o, f, c.1, false, step, effects),
            Some(pa) => launched(o, f, port, pa.0, pa.1, facts, step, effects),
        }
    } else if model.len() == 0 && eng != InferenceEngine::TabbyApi {
        stopped_with(o, f, "모델 선택 안 됨"@, false, step, effects)
    } else if eng == InferenceEngine::TabbyApi {
        match launcher_verdict(o.platform, trim_seq(o.inference_binary_path@), facts.binary_kind) {
            Err(m) => stopped_with(o, f, m, true, step, effects),
            Ok(_) => if model.len() > 0 {
                match facts.tabbyapi_model_dir {
                    None => stopped_with(o, f, incomplete_model_text(model), true, step, effects),
                    Some(r) => {
                        &&& effects.len() == 0
                        &&& f == o
                        &&& step matches StartStep::WriteTabbyConfig { launcher, model: m, port: p }
                            && launcher@ == trim_seq(o.inference_binary_path@) && m == r && p
                            == port
                    },
                }
            } else {
                composed(o, f, port, facts, step, effects)
            },
        }
    } else if eng == InferenceEngine::TabbyMl && facts.model_path_exists {
        stopped_with(o, f, exl2_for_tabbyapi_text(), true, step, effects)
    } else if is_local_dir_engine(eng) && !local_model_available(o, views(facts.downloaded@)) {
        stopped_with(o, f, local_model_missing_text(), false, step, effects)
    } else {
        composed(o, f, port, facts, step, effects)
    }
}

/// `words` joined with `sep` between them.
pub open spec fn joined(words: Seq<Seq<char>>, sep: Seq<char>) -> Seq<char>
    decreases words.len(),
{
    if words.len() == 0 {
        Seq::empty()
    } else if words.len() == 1 {
        words[0]
    } else {
        joined(words.drop_last(), sep) + sep + words.last()
    }
}

/// The message when the binary path is a directory without the engine's
/// binary in it.
pub open spec fn binary_dir_text(dir: Seq<char>, expected: Seq<char>) -> Seq<char> {
    "Runtime binary path '"@ + dir + "' is a directory, but '"@ + expected
        + "' was not found inside it. Select the executable file directly or place '"@ + expected
        + "' in that folder."@
}

/// The message when the engine's binary is nowhere to be found.
pub open spec fn binary_missing_text(eng: InferenceEngine, label: Seq<char>) -> Seq<char> {
    if eng == InferenceEngine::XLlm {
        "xLLM binary was not found on this machine. Set Runtime > binary path to a host xllm executable, or use Engine=Custom and run xLLM through Docker."@
    } else {
        label + " binary was not found. Set Runtime > binary path to the executable or install/add it to PATH."@
    }
}

fn joined_words(words: &Vec<String>) -> (r: String)
    ensures
        r@ == joined(views(words@), " "@),
{
    let mut out = String::new();
    let n = words.len();
    let mut i: usize = 0;
    assert(views(words@).take(0) =~= Seq::<Seq<char>>::empty());
    while i < n
        invariant
            n == words@.len(),
            i <= n,
            out@ == joined(views(words@).take(i as int), " "@),
        decreases n - i,
    {
        let ghost before = out@;
        let ghost t = views(words@).take(i + 1);
        assert(t.drop_last() =~= views(words@).take(i as int));
        assert(t.last() == words@[i as int]@);
        if i > 0 {
            out.append(" ");
        }
        out.append(words[i].as_str());
        if i == 0 {
            assert(out@ =~= t[0]);
        }
        i = i + 1;
    }
    assert(views(words@).take(n as int) =~= views(words@));
    out
}

fn copy_words(v: &Vec<String>) -> (r: Vec<String>)
    ensures
        r@ == v@,
{
    let mut out: Vec<String> = Vec::new();
    let n = v.len();
    let mut i: usize = 0;
    while i < n
        invariant
            n == v@.len(),
            i <= n,
            out@ == v@.take(i as int),
        decreases n - i,
    {
        out.push(copy_string(&v[i]));
        assert(out@ =~= v@.take(i + 1));
        i = i + 1;
    }
    assert(v@.take(n as int) =~= v@);
    out
}

impl App {
    fn launch_command(&mut self, port: u16, program: String, args: Vec<String>, facts: &StartFacts) -> (r: (StartStep, Vec<Effect>))
        ensures
            launched(*old(self), *final(self), port, program@, views(args@), *facts, r.0, r.1@),
    {
        let effects = self.set_inference_url_and_label(port, facts.engine_label.as_str());
        let hint = copy_string(&program);
        let (p, a, w) = self.resolve_runtime_spawn_command(
            program,
            args,
            matches!(facts.binary_kind, PathKind::Directory),
            crate::model::copy_opt(&facts.dir_binary),
        );
        (StartStep::CheckRuntime(RuntimeCheck { program: p, args: a, work_dir: w, hint }), effects)
    }

    fn compose_and_launch(&mut self, port: u16, facts: &StartFacts) -> (r: (StartStep, Vec<Effect>))
        ensures
            composed(*old(self), *final(self), port, *facts, r.0, r.1@),
    {
        match &facts.engine_command {
            None => (StartStep::Done, Vec::new()),
            Some(cmd) => {
                let mut words = copy_words(cmd);
                let ghost all = views(words@);
                if words.len() == 0 {
                    assert(all =~= Seq::<Seq<char>>::empty());
                    self.launch_command(port, String::new(), words, facts)
                } else {
                    let program = words.remove(0);
                    assert(views(words@) =~= all.drop_first());
                    self.launch_command(port, program, words, facts)
                }
            },
        }
    }

    fn stop_start(&mut self, m: String, tabby: bool) -> (r: (StartStep, Vec<Effect>))
        ensures
            stopped_with(*old(self), *final(self), m@, tabby, r.0, r.1@),
    {
        if tabby {
            self.status = copy_string(&m);
            self.tabby_status = Some(Err(m));
        } else {
            self.status = m;
        }
        (StartStep::Done, Vec::new())
    }

    /// The first step of starting the runtime (see `start_begun`).
    pub fn start_inference(&mut self, facts: &StartFacts) -> (r: (StartStep, Vec<Effect>))
        ensures
            start_begun(*old(self), *final(self), *facts, r.0, r.1@),
    {
        if self.inference_pid.is_some() {
            return self.stop_start(String::from_str("이미 실행 중"), false);
        }
        let port = self.parse_inference_port(facts.default_port);
        let eng = self.inference_engine;
        if matches!(eng, InferenceEngine::Ollama) {
            self.tabby_url_input = localhost_url_of(port);
            let mut effects: Vec<Effect> = Vec::new();
            effects.push(Effect::PersistTabbyBaseUrl(copy_string(&self.tabby_url_input)));
            if trim(self.openai_compat_label.as_str()).unicode_len() == 0 {
                self.openai_compat_label = String::from_str("Ollama");
                effects.push(Effect::PersistOpenAiCompatLabel(String::from_str("Ollama")));
            }
            self.status = String::from_str("Ollama daemon endpoint 등록 — 연결 테스트");
            return (StartStep::FetchModels, effects);
        }
        if matches!(eng, InferenceEngine::Custom) {
            let parsed = match &facts.parsed_command {
                Ok(v) => Ok(copy_words(v)),
                Err(e) => Err(copy_string(e)),
            };
            return match self.start_custom(parsed) {
                None => (StartStep::Done, Vec::new()),
                Some((program, args)) => self.launch_command(port, program, args, facts),
            };
        }
        let model = String::from_str(trim(self.inference_selected_model.as_str()));
        let tabbyapi = matches!(eng, InferenceEngine::TabbyApi);
        if model.as_str().unicode_len() == 0 && !tabbyapi {
            return self.stop_start(String::from_str("모델 선택 안 됨"), false);
        }
        if tabbyapi {
            let launcher = String::from_str(trim(self.inference_binary_path.as_str()));
            if let Err(msg) = validate_tabbyapi_launcher_path(self.platform, launcher.as_str(), facts.binary_kind) {
                return self.stop_start(msg, true);
            }
            if model.as_str().unicode_len() > 0 {
                return match &facts.tabbyapi_model_dir {
                    None => {
                        let mut m = String::from_str("TabbyAPI 모델 폴더가 완전하지 않습니다: ");
                        m.append(model.as_str());
                        m.append(" (config.json과 실제 모델 가중치 파일이 필요합니다.)");
                        self.stop_start(m, true)
                    },
                    Some(r) => (
                        StartStep::WriteTabbyConfig { launcher, model: copy_string(r), port },
                        Vec::new(),
                    ),
                };
            }
            return self.compose_and_launch(port, facts);
        }
        if matches!(eng, InferenceEngine::TabbyMl) && facts.model_path_exists {
            return self.stop_start(
                String::from_str(
                    "EXL2 로컬 폴더는 TabbyAPI용입니다. TabbyAPI(Start.bat 또는 python main.py)를 실행한 뒤 Provider URL을 http://localhost:5000 로 연결 테스트해 주세요.",
                ),
                true,
            );
        }
        let local = matches!(
            eng,
            InferenceEngine::XLlm | InferenceEngine::VLlm | InferenceEngine::LlamaServer
        );
        if local && !self.has_selected_local_model_available(&facts.downloaded) {
            return self.stop_start(
                String::from_str(
                    "Selected local model was not found in the current model directory. Verify Models > download status and Runtime > model directory/path, then try Start again.",
                ),
                false,
            );
        }
        self.compose_and_launch(port, facts)
    }

    /// The step after the TabbyAPI configuration for `model` on `port` was
    /// written, or failed to be with the given reason: a failure stops the
    /// start; otherwise `model` becomes the selected model and the engine's
    /// command is launched.
    pub fn on_tabby_config_written(&mut self, result: Result<(), String>, model: String, port: u16, facts: &StartFacts) -> (r: (StartStep, Vec<Effect>))
        ensures
            match result {
                Err(e) => stopped_with(*old(self), *final(self), e@, true, r.0, r.1@),
                Ok(_) => composed(
                    App { inference_selected_model: model, ..*old(self) },
                    *final(self),
                    port,
                    *facts,
                    r.0,
                    r.1@,
                ),
            },
    {
        match result {
            Err(e) => self.stop_start(e, true),
            Ok(_) => {
                self.inference_selected_model = model;
                self.compose_and_launch(port, facts)
            },
        }
    }

    /// The last step of starting the runtime, once it is known whether the
    /// checked program `exists`; `binary_kind` tells what the trimmed binary
    /// path names on disk, and `engine_label` is the engine's display name. A
    /// missing program of a model-directory engine stops the start with the
    /// reason; otherwise the runtime log is cleared, the automatic model
    /// listing is armed, and the runtime is to be spawned.
    pub fn on_runtime_checked(&mut self, check: RuntimeCheck, exists: bool, binary_kind: PathKind, engine_label: &str) -> (r: Option<SpawnRequest>)
        ensures
            ({
                let o = *old(self);
                let f = *final(self);
                let over = trim_seq(o.inference_binary_path@);
                if is_local_dir_engine(o.inference_engine) && !exists {
                    &&& r is None
                    &&& f.status@ == if over.len() > 0 && binary_kind == PathKind::Directory
                        && check.program@ == over {
                        binary_dir_text(over, expected_binary(o.platform, check.hint@))
                    } else {
                        binary_missing_text(o.inference_engine, engine_label@)
                    }
                    &&& f == (App { status: f.status, ..o })
                } else {
                    &&& r matches Some(s) && s.program == check.program && s.args == check.args
                        && s.work_dir == check.work_dir && s.retry_generation == f.tabby_retry_generation
                        && s.delay_secs == START_PROBE_DELAY_SECS
                    &&& f.inference_log@.len() == 0
                    &&& f.tabby_connect_retry_left == TABBY_CONNECT_RETRIES_AFTER_START
                    &&& f.tabby_retry_generation == next_generation(o.tabby_retry_generation)
                    &&& f.status@ == "실행 시작: "@ + check.program@ + " "@ + joined(
                        views(check.args@),
                        " "@,
                    )
                    &&& f == (App {
                        inference_log: f.inference_log,
                        tabby_connect_retry_left: TABBY_CONNECT_RETRIES_AFTER_START,
                        tabby_retry_generation: f.tabby_retry_generation,
                        status: f.status,
                        ..o
                    })
                }
            }),
    {
        let local = matches!(
            self.inference_engine,
            InferenceEngine::XLlm | InferenceEngine::VLlm | InferenceEngine::LlamaServer
        );
        if local && !exists {
            let over = trim(self.inference_binary_path.as_str());
            if over.unicode_len() > 0 && matches!(binary_kind, PathKind::Directory) && str_equals(
                check.program.as_str(),
                over,
            ) {
                let expected = expected_binary_name(self.platform, check.hint.as_str());
                let mut m = String::from_str("Runtime binary path '");
                m.append(over);
                m.append("' is a directory, but '");
                m.append(expected.as_str());
                m.append("' was not found inside it. Select the executable file directly or place '");
                m.append(expected.as_str());
                m.append("' in that folder.");
                self.status = m;
                return None;
            }
            if matches!(self.inference_engine, InferenceEngine::XLlm) {
                self.status = String::from_str(
                    "xLLM binary was not found on this machine. Set Runtime > binary path to a host xllm executable, or use Engine=Custom and run xLLM through Docker.",
                );
            } else {
                let mut m = String::from_str(engine_label);
                m.append(" binary was not found. Set Runtime > binary path to the executable or install/add it to PATH.");
                self.status = m;
            }
            return None;
        }
        self.inference_log = Vec::new();
        self.tabby_connect_retry_left = TABBY_CONNECT_RETRIES_AFTER_START;
        self.tabby_retry_generation = self.tabby_retry_generation.saturating_add(1);
        let mut st = String::from_str("실행 시작: ");
        st.append(check.program.as_str());
        st.append(" ");
        st.append(joined_words(&check.args).as_str());
        self.status = st;
        Some(
            SpawnRequest {
                program: check.program,
                args: check.args,
                work_dir: check.work_dir,
                retry_generation: self.tabby_retry_generation,
                delay_secs: START_PROBE_DELAY_SECS,
            },
        )
    }
}

} // verus!
