//! The runtime tab: whether the chosen engine can start, the port and endpoint
//! it is reached at, the command a launcher is run with, the runtime log, and
//! the provider connection settings with their retry bookkeeping.
use crate::model::{
    is_local_dir_engine, Effect, InferenceEngine, LlmProvider, ModelOption,
};
use crate::mention::views;
use crate::paths::{extension, extension_of, file_name, file_name_of, parent, parent_of, Platform};
use crate::runtime::{extract_loopback_port, is_loopback, is_loopback_url, loopback_port};
use crate::selection::synced_provider;
use crate::state::App;
use crate::tabbyapi::{is_launcher_path, is_tabbyapi_launcher_path};
use crate::text::{
    dec, is_whitespace, is_ws, lower_ascii, parse_u16, parse_u16_spec, push_decimal, str_equals,
    to_ascii_lowercase, trim, trim_seq,
};
use vstd::prelude::*;

verus! {

/// The number of runtime log lines kept.
pub const INFERENCE_LOG_CAP: usize = 20;

/// `log` with `line` appended and only the newest `INFERENCE_LOG_CAP` lines kept.
pub open spec fn capped_log(log: Seq<String>, line: String, cap: nat) -> Seq<String> {
    let s = log.push(line);
    if s.len() > cap {
        s.skip(s.len() - cap)
    } else {
        s
    }
}

/// `http://localhost:` followed by `port`.
pub open spec fn localhost_url(port: u16) -> Seq<char> {
    "http://localhost:"@ + dec(port as nat)
}

pub(crate) fn localhost_url_of(port: u16) -> (r: String)
    ensures
        r@ == localhost_url(port),
{
    let mut s = String::from_str("http://localhost:");
    push_decimal(&mut s, port as u64);
    s
}

/// Index of the first white-space character of `s`, or -1.
pub open spec fn first_ws(s: Seq<char>) -> int
    decreases s.len(),
{
    if s.len() == 0 {
        -1
    } else if is_ws(s[0]) {
        0
    } else if first_ws(s.drop_first()) < 0 {
        -1
    } else {
        1 + first_ws(s.drop_first())
    }
}

/// The first white-space separated word of `s`, `Local` when it has none.
pub open spec fn first_word_or_local(s: Seq<char>) -> Seq<char> {
    let t = trim_seq(s);
    if t.len() == 0 {
        "Local"@
    } else if first_ws(t) < 0 {
        t
    } else {
        t.take(first_ws(t))
    }
}

fn first_word_or_local_of(s: &str) -> (r: String)
    ensures
        r@ == first_word_or_local(s@),
{
    let t = trim(s);
    let n = t.unicode_len();
    if n == 0 {
        return String::from_str("Local");
    }
    let mut i: usize = 0;
    assert(t@.skip(0) =~= t@);
    while i < n && !is_whitespace(t.get_char(i))
        invariant
            n == t@.len(),
            i <= n,
            first_ws(t@) == if first_ws(t@.skip(i as int)) < 0 {
                -1
            } else {
                i + first_ws(t@.skip(i as int))
            },
        decreases n - i,
    {
        assert(t@.skip(i as int).drop_first() =~= t@.skip(i + 1));
        i = i + 1;
    }
    if i == n {
        assert(t@.skip(n as int) =~= Seq::<char>::empty());
        return String::from_str(t);
    }
    assert(t@.skip(i as int)[0] == t@[i as int]);
    String::from_str(t.substring_char(0, i))
}

/// Whether the file-name list `downloaded` holds the trimmed selected model.
pub open spec fn local_model_available(app: App, downloaded: Seq<Seq<char>>) -> bool {
    let selected = trim_seq(app.inference_selected_model@);
    selected.len() > 0 && downloaded.contains(selected)
}

/// Whether the current engine has what it needs to start.
pub open spec fn startable(app: App, downloaded: Seq<Seq<char>>) -> bool {
    match app.inference_engine {
        InferenceEngine::Custom => trim_seq(app.inference_command_input@).len() > 0,
        InferenceEngine::Ollama => true,
        InferenceEngine::TabbyMl => trim_seq(app.inference_selected_model@).len() > 0,
        InferenceEngine::TabbyApi => trim_seq(app.inference_binary_path@).len() > 0,
        _ => local_model_available(app, downloaded),
    }
}

/// The options without those of provider `p`, in their order.
pub open spec fn without_provider(opts: Seq<ModelOption>, p: LlmProvider) -> Seq<ModelOption>
    decreases opts.len(),
{
    if opts.len() == 0 {
        Seq::empty()
    } else if opts.last().provider == p {
        without_provider(opts.drop_last(), p)
    } else {
        without_provider(opts.drop_last(), p).push(opts.last())
    }
}

/// Whether `after` is `before` with each option's favourite flag set to
/// whether `favorites` holds its id.
pub open spec fn favorites_synced(
    before: Seq<ModelOption>,
    after: Seq<ModelOption>,
    favorites: Seq<Seq<char>>,
) -> bool {
    &&& after.len() == before.len()
    &&& forall|i: int|
        0 <= i < before.len() ==> {
            &&& (#[trigger] after[i]).id == before[i].id
            &&& after[i].provider == before[i].provider
            &&& after[i].provider_label == before[i].provider_label
            &&& after[i].ko_friendly == before[i].ko_friendly
            &&& after[i].context_length == before[i].context_length
            &&& after[i].favorite == favorites.contains(before[i].id@)
        }
}

pub(crate) fn contains_string(list: &Vec<String>, s: &str) -> (r: bool)
    ensures
        r == views(list@).contains(s@),
{
    let n = list.len();
    let mut i: usize = 0;
    while i < n
        invariant
            n == list@.len(),
            i <= n,
            forall|j: int| 0 <= j < i ==> list@[j]@ != s@,
        decreases n - i,
    {
        if str_equals(list[i].as_str(), s) {
            assert(views(list@)[i as int] == s@);
            return true;
        }
        i = i + 1;
    }
    assert forall|j: int| 0 <= j < views(list@).len() implies views(list@)[j] != s@ by {
        assert(views(list@)[j] == list@[j]@);
    }
    false
}

impl App {
    /// Whether the selected local model is among `downloaded`, the model folder
    /// names found in the model directory.
    pub fn has_selected_local_model_available(&self, downloaded: &Vec<String>) -> (r: bool)
        ensures
            r == local_model_available(*self, views(downloaded@)),
    {
        let selected = trim(self.inference_selected_model.as_str());
        if selected.unicode_len() == 0 {
            return false;
        }
        contains_string(downloaded, selected)
    }

    /// Clears the selected model of a local-directory engine when the model
    /// directory, whose model folders are `downloaded`, no longer holds it.
    pub fn sync_selected_local_model_for_model_dir(&mut self, downloaded: &Vec<String>)
        ensures
            is_local_dir_engine(old(self).inference_engine) && !local_model_available(
                *old(self),
                views(downloaded@),
            ) ==> final(self).inference_selected_model@ == Seq::<char>::empty() && *final(self)
                == (App { inference_selected_model: final(self).inference_selected_model, ..*old(self) }),
            !(is_local_dir_engine(old(self).inference_engine) && !local_model_available(
                *old(self),
                views(downloaded@),
            )) ==> *final(self) == *old(self),
    {
        match self.inference_engine {
            InferenceEngine::XLlm | InferenceEngine::VLlm | InferenceEngine::LlamaServer => {},
            _ => return,
        }
        if !self.has_selected_local_model_available(downloaded) {
            self.inference_selected_model = String::new();
        }
    }

    /// Whether the current engine has what it needs to start; `downloaded`
    /// lists the model folders of the model directory.
    pub fn can_start_inference(&self, downloaded: &Vec<String>) -> (r: bool)
        ensures
            r == startable(*self, views(downloaded@)),
    {
        match self.inference_engine {
            InferenceEngine::Custom => trim(self.inference_command_input.as_str()).unicode_len() > 0,
            InferenceEngine::Ollama => true,
            InferenceEngine::TabbyMl => trim(self.inference_selected_model.as_str()).unicode_len()
                > 0,
            InferenceEngine::TabbyApi => trim(self.inference_binary_path.as_str()).unicode_len()
                > 0,
            _ => self.has_selected_local_model_available(downloaded),
        }
    }

    /// Whether the start button is enabled: always for TabbyAPI, whose start
    /// explains what is missing, otherwise when the engine can start.
    pub fn can_attempt_start_inference(&self, downloaded: &Vec<String>) -> (r: bool)
        ensures
            r == (self.inference_engine == InferenceEngine::TabbyApi || startable(
                *self,
                views(downloaded@),
            )),
    {
        match self.inference_engine {
            InferenceEngine::TabbyApi => true,
            _ => self.can_start_inference(downloaded),
        }
    }

    /// Appends `line` to the runtime log, keeping the newest lines only.
    pub fn push_inference_log(&mut self, line: String)
        ensures
            final(self).inference_log@ == capped_log(
                old(self).inference_log@,
                line,
                INFERENCE_LOG_CAP as nat,
            ),
            *final(self) == (App { inference_log: final(self).inference_log, ..*old(self) }),
    {
        let ghost pushed = self.inference_log@.push(line);
        let mut log: Vec<String> = Vec::new();
        std::mem::swap(&mut log, &mut self.inference_log);
        log.push(line);
        while log.len() > INFERENCE_LOG_CAP
            invariant
                pushed.len() >= log@.len(),
                pushed.len() > INFERENCE_LOG_CAP ==> log@.len() >= INFERENCE_LOG_CAP,
                pushed.len() <= INFERENCE_LOG_CAP ==> log@.len() == pushed.len(),
                log@ =~= pushed.skip(pushed.len() - log@.len()),
            decreases log@.len(),
        {
            log.remove(0);
        }
        proof {
            if pushed.len() <= INFERENCE_LOG_CAP {
                assert(pushed.skip(0) =~= pushed);
            }
        }
        self.inference_log = log;
    }

    /// The port typed in the runtime tab, or `default_port`, the engine's usual
    /// port, when it is not a valid port number.
    pub fn parse_inference_port(&self, default_port: u16) -> (r: u16)
        ensures
            r == match parse_u16_spec(trim_seq(self.inference_port_input@)) {
                Some(p) => p,
                None => default_port,
            },
    {
        match parse_u16(trim(self.inference_port_input.as_str())) {
            Some(p) => p,
            None => default_port,
        }
    }
}

/// The command a spawn request resolves to, given the engine's program and
/// arguments, whether the trimmed binary override is a directory, and the
/// binary found for the program inside that directory.
pub open spec fn spawn_command(
    app: App,
    program: Seq<char>,
    args: Seq<Seq<char>>,
    override_is_dir: bool,
    dir_binary: Option<Seq<char>>,
) -> (Seq<char>, Seq<Seq<char>>, Option<Seq<char>>) {
    let p = app.platform;
    let ov = trim_seq(app.inference_binary_path@);
    if app.inference_engine != InferenceEngine::TabbyApi {
        let fin = if ov.len() == 0 || is_launcher_path(p, ov) {
            program
        } else if override_is_dir {
            match dir_binary {
                Some(b) => b,
                None => ov,
            }
        } else {
            ov
        };
        (fin, args, None)
    } else {
        let script = if ov.len() == 0 {
            program
        } else {
            ov
        };
        let work_dir = parent_of(p, script);
        let name = match file_name_of(p, script) {
            Some(n) => n,
            None => script,
        };
        let ext = match extension_of(p, script) {
            Some(e) => lower_ascii(e),
            None => Seq::empty(),
        };
        if p == Platform::Windows && (ext == "bat"@ || ext == "cmd"@) {
            ("cmd.exe"@, seq!["/C"@, name] + args, work_dir)
        } else if p == Platform::Windows && ext == "py"@ {
            ("python"@, seq![name] + args, work_dir)
        } else if p == Platform::Unix && ext == "sh"@ {
            ("./"@ + name, args, work_dir)
        } else if p == Platform::Unix && ext == "py"@ {
            ("python3"@, seq![name] + args, work_dir)
        } else {
            (script, args, work_dir)
        }
    }
}

/// The outcome of preparing a custom start command.
pub open spec fn custom_start(app: App, parsed: Result<Seq<Seq<char>>, Seq<char>>) -> (
    Option<(Seq<char>, Seq<Seq<char>>)>,
    Seq<char>,
) {
    if trim_seq(app.inference_command_input@).len() == 0 {
        (None, "시작 명령 비어있음"@)
    } else {
        match parsed {
            Err(e) => (None, "시작 명령 파싱 실패: "@ + e),
            Ok(parts) => if parts.len() == 0 {
                (None, app.status@)
            } else {
                (Some((parts[0], parts.drop_first())), app.status@)
            },
        }
    }
}

/// The views of a parsed command.
pub open spec fn parsed_view(r: Result<Vec<String>, String>) -> Result<Seq<Seq<char>>, Seq<char>> {
    match r {
        Ok(v) => Ok(views(v@)),
        Err(e) => Err(e@),
    }
}

fn string_of(s: &str) -> (r: String)
    ensures
        r@ == s@,
{
    String::from_str(s)
}

impl App {
    /// The program and arguments of the custom start command, split by
    /// `parsed`, the result of splitting the trimmed command line; `None` with
    /// the reason in the status when there is nothing to run.
    pub fn start_custom(&mut self, parsed: Result<Vec<String>, String>) -> (r: Option<
        (String, Vec<String>),
    >)
        ensures
            match r {
                Some((prog, rest)) => custom_start(*old(self), parsed_view(parsed)).0 == Some(
                    (prog@, views(rest@)),
                ),
                None => custom_start(*old(self), parsed_view(parsed)).0 is None,
            },
            final(self).status@ == custom_start(*old(self), parsed_view(parsed)).1,
            *final(self) == (App { status: final(self).status, ..*old(self) }),
            r is Some ==> *final(self) == *old(self),
    {
        if trim(self.inference_command_input.as_str()).unicode_len() == 0 {
            self.status = string_of("시작 명령 비어있음");
            return None;
        }
        match parsed {
            Err(e) => {
                let mut m = string_of("시작 명령 파싱 실패: ");
                m.append(e.as_str());
                self.status = m;
                None
            },
            Ok(mut parts) => {
                if parts.len() == 0 {
                    return None;
                }
                let ghost all = views(parts@);
                let first = parts.remove(0);
                assert(views(parts@) =~= all.drop_first());
                Some((first, parts))
            },
        }
    }

    /// Points the provider URL at the local runtime on `port` and, when no
    /// provider label is set, names it after the first word of `engine_label`.
    pub fn set_inference_url_and_label(&mut self, port: u16, engine_label: &str) -> (effects: Vec<
        Effect,
    >)
        ensures
            final(self).tabby_url_input@ == localhost_url(port),
            trim_seq(old(self).openai_compat_label@).len() == 0 ==> final(self).openai_compat_label@
                == first_word_or_local(engine_label@),
            trim_seq(old(self).openai_compat_label@).len() != 0 ==> final(self).openai_compat_label
                == old(self).openai_compat_label,
            *final(self) == (App {
                tabby_url_input: final(self).tabby_url_input,
                openai_compat_label: final(self).openai_compat_label,
                ..*old(self)
            }),
            effects@.len() == if trim_seq(old(self).openai_compat_label@).len() == 0 {
                2int
            } else {
                1int
            },
            effects@[0] matches Effect::PersistTabbyBaseUrl(u) && u@ == localhost_url(port),
            trim_seq(old(self).openai_compat_label@).len() == 0 ==> (effects@[1] matches Effect::PersistOpenAiCompatLabel(l)
                && l@ == first_word_or_local(engine_label@)),
    {
        self.tabby_url_input = localhost_url_of(port);
        let mut effects: Vec<Effect> = Vec::new();
        effects.push(Effect::PersistTabbyBaseUrl(self.tabby_url_input.clone()));
        if trim(self.openai_compat_label.as_str()).unicode_len() == 0 {
            let label = first_word_or_local_of(engine_label);
            self.openai_compat_label = label.clone();
            effects.push(Effect::PersistOpenAiCompatLabel(label));
        }
        effects
    }

    /// The program, arguments and working directory a runtime is spawned with.
    /// `override_is_dir` tells whether the trimmed binary override is a
    /// directory, and `dir_binary` is the binary `resolve_binary_from_dir` found
    /// for `program` inside it.
    pub fn resolve_runtime_spawn_command(
        &self,
        program: String,
        args: Vec<String>,
        override_is_dir: bool,
        dir_binary: Option<String>,
    ) -> (r: (String, Vec<String>, Option<String>))
        ensures
            (r.0@, views(r.1@), crate::text::opt_view(r.2)) == spawn_command(
                *self,
                program@,
                views(args@),
                override_is_dir,
                crate::text::opt_view(dir_binary),
            ),
    {
        let p = self.platform;
        let ov = trim(self.inference_binary_path.as_str());
        let ghost av = views(args@);
        if !matches!(self.inference_engine, InferenceEngine::TabbyApi) {
            let fin = if ov.unicode_len() == 0 || is_tabbyapi_launcher_path(p, ov) {
                program
            } else if override_is_dir {
                match dir_binary {
                    Some(b) => b,
                    None => string_of(ov),
                }
            } else {
                string_of(ov)
            };
            return (fin, args, None);
        }
        let script = if ov.unicode_len() == 0 {
            program
        } else {
            string_of(ov)
        };
        let work_dir = parent(p, script.as_str());
        let name = match file_name(p, script.as_str()) {
            Some(n) => n,
            None => script.clone(),
        };
        let ext = match extension(p, script.as_str()) {
            Some(e) => to_ascii_lowercase(e.as_str()),
            None => String::new(),
        };
        let e = ext.as_str();
        let windows = matches!(p, Platform::Windows);
        if windows && (str_equals(e, "bat") || str_equals(e, "cmd")) {
            let mut fa: Vec<String> = Vec::new();
            fa.push(string_of("/C"));
            fa.push(name);
            let mut rest = args;
            fa.append(&mut rest);
            assert(views(fa@) =~= seq!["/C"@, name@] + av);
            return (string_of("cmd.exe"), fa, work_dir);
        }
        if windows && str_equals(e, "py") {
            let mut fa: Vec<String> = Vec::new();
            fa.push(name);
            let mut rest = args;
            fa.append(&mut rest);
            assert(views(fa@) =~= seq![name@] + av);
            return (string_of("python"), fa, work_dir);
        }
        if !windows && str_equals(e, "sh") {
            let mut prog = string_of("./");
            prog.append(name.as_str());
            return (prog, args, work_dir);
        }
        if !windows && str_equals(e, "py") {
            let mut fa: Vec<String> = Vec::new();
            fa.push(name);
            let mut rest = args;
            fa.append(&mut rest);
            assert(views(fa@) =~= seq![name@] + av);
            return (string_of("python3"), fa, work_dir);
        }
        (script, args, work_dir)
    }
}

} // verus!
