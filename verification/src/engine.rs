//! Choosing and configuring the local inference engine: the engine, its port
//! and the provider endpoint that follows it, the model directory, the binary
//! or launcher script, and the TabbyAPI runtime.
use crate::inference::{local_model_available, localhost_url, localhost_url_of};
use crate::mention::views;
use crate::model::{copy_string, is_local_dir_engine, Effect, InferenceEngine};
use crate::runtime::{extract_loopback_port, is_loopback, is_loopback_url, loopback_port};
use crate::state::App;
use crate::tabbyapi::{launcher_verdict, validate_tabbyapi_launcher_path, PathKind};
use crate::text::{dec, decimal, parse_u16, parse_u16_spec, trim, trim_seq};
use vstd::prelude::*;

verus! {

/// The port TabbyAPI listens on unless told otherwise.
pub const TABBY_API_DEFAULT_PORT: u16 = 5000;

/// Whether the model chosen for engine `a` still makes sense for engine `b`:
/// the same engine, or two engines that serve models from the model directory.
pub open spec fn shares_model_namespace(a: InferenceEngine, b: InferenceEngine) -> bool {
    a == b || (is_local_dir_engine(a) && is_local_dir_engine(b))
}

/// Whether the provider endpoint follows the port of engine `e`.
pub open spec fn port_follows_engine(e: InferenceEngine) -> bool {
    e != InferenceEngine::Ollama && e != InferenceEngine::Custom
}

/// Whether a port change from `prev_port` moves the provider URL `url` along:
/// when it is blank, or points at this machine on the previous port or on no
/// port.
pub open spec fn url_follows_port(url: Seq<char>, prev_port: Option<u16>) -> bool {
    let cur = trim_seq(url);
    cur.len() == 0 || (is_loopback(cur) && (loopback_port(cur) == prev_port || loopback_port(cur)
        is None))
}

/// Whether `e` stores the provider URL `url`.
pub open spec fn persists_url(e: Effect, url: Seq<char>) -> bool {
    e matches Effect::PersistTabbyBaseUrl(u) && u@ == url
}

/// Whether `e` stores the provider label `label`.
pub open spec fn persists_label(e: Effect, label: Seq<char>) -> bool {
    e matches Effect::PersistOpenAiCompatLabel(l) && l@ == label
}

/// Whether `e` stores the binary path `path`.
pub open spec fn persists_binary(e: Effect, path: Seq<char>) -> bool {
    e matches Effect::PersistInferenceBinary(b) && b@ == path
}

/// The message when a downloaded folder holds no usable TabbyAPI model.
pub open spec fn unresolved_model_text(model_path: Seq<char>) -> Seq<char> {
    "TabbyAPI 모델 폴더를 확정할 수 없습니다: "@ + model_path
        + " (config.json+가중치 파일이 필요하며, 여러 하위 모델이면 폴더 이름에 bpw 힌트가 포함되어야 합니다.)"@
}

impl App {
    /// Switches the runtime to `engine`, whose usual port is `default_port`:
    /// the port resets, a model chosen for an engine of another kind is
    /// dropped, and the TabbyAPI and TabbyML engines point the provider URL and
    /// label at themselves (which is stored).
    pub fn select_inference_engine(&mut self, engine: InferenceEngine, default_port: u16) -> (effects: Vec<Effect>)
        ensures
            ({
                let o = *old(self);
                let f = *final(self);
                let tabby = engine == InferenceEngine::TabbyApi || engine == InferenceEngine::TabbyMl;
                let label = if engine == InferenceEngine::TabbyApi {
                    "TabbyAPI"@
                } else {
                    "TabbyML"@
                };
                &&& f.inference_engine == engine
                &&& f.inference_port_input@ == dec(default_port as nat)
                &&& shares_model_namespace(o.inference_engine, engine) ==> f.inference_selected_model
                    == o.inference_selected_model
                &&& !shares_model_namespace(o.inference_engine, engine)
                    ==> f.inference_selected_model@.len() == 0
                &&& tabby ==> {
                    &&& f.tabby_url_input@ == localhost_url(default_port)
                    &&& f.openai_compat_label@ == label
                    &&& effects@.len() == 2
                    &&& persists_url(effects@[0], localhost_url(default_port))
                    &&& persists_label(effects@[1], label)
                }
                &&& !tabby ==> effects@.len() == 0 && f.tabby_url_input == o.tabby_url_input
                    && f.openai_compat_label == o.openai_compat_label
                &&& f == (App {
                    inference_engine: engine,
                    inference_port_input: f.inference_port_input,
                    inference_selected_model: f.inference_selected_model,
                    tabby_url_input: f.tabby_url_input,
                    openai_compat_label: f.openai_compat_label,
                    ..o
                })
            }),
    {
        let prev = self.inference_engine;
        self.inference_engine = engine;
        self.inference_port_input = decimal(default_port as u64);
        let local_prev = matches!(
            prev,
            InferenceEngine::XLlm | InferenceEngine::VLlm | InferenceEngine::LlamaServer
        );
        let local_next = matches!(
            engine,
            InferenceEngine::XLlm | InferenceEngine::VLlm | InferenceEngine::LlamaServer
        );
        if !(prev == engine || (local_prev && local_next)) {
            self.inference_selected_model = String::new();
        }
        let mut effects: Vec<Effect> = Vec::new();
        let label = match engine {
            InferenceEngine::TabbyApi => "TabbyAPI",
            InferenceEngine::TabbyMl => "TabbyML",
            _ => return effects,
        };
        self.tabby_url_input = localhost_url_of(default_port);
        effects.push(Effect::PersistTabbyBaseUrl(copy_string(&self.tabby_url_input)));
        self.openai_compat_label = String::from_str(label);
        effects.push(Effect::PersistOpenAiCompatLabel(String::from_str(label)));
        effects
    }

    /// Sets the port typed in the runtime tab. When it is a valid port and the
    /// engine serves the provider endpoint, a provider URL that follows the
    /// port (see `url_follows_port`) moves to the new port, which is stored.
    pub fn set_inference_port(&mut self, value: &str) -> (effects: Vec<Effect>)
        ensures
            ({
                let o = *old(self);
                let f = *final(self);
                let prev = parse_u16_spec(trim_seq(o.inference_port_input@));
                let moves = parse_u16_spec(trim_seq(value@)) is Some && port_follows_engine(
                    o.inference_engine,
                ) && url_follows_port(o.tabby_url_input@, prev);
                &&& f.inference_port_input@ == value@
                &&& moves ==> {
                    let url = localhost_url(parse_u16_spec(trim_seq(value@))->0);
                    &&& f.tabby_url_input@ == url
                    &&& effects@.len() == 1
                    &&& persists_url(effects@[0], url)
                }
                &&& !moves ==> effects@.len() == 0 && f.tabby_url_input == o.tabby_url_input
                &&& f == (App {
                    inference_port_input: f.inference_port_input,
                    tabby_url_input: f.tabby_url_input,
                    ..o
                })
            }),
    {
        let prev_port = parse_u16(trim(self.inference_port_input.as_str()));
        self.inference_port_input = String::from_str(value);
        let mut effects: Vec<Effect> = Vec::new();
        let new_port = match parse_u16(trim(value)) {
            Some(p) => p,
            None => return effects,
        };
        match self.inference_engine {
            InferenceEngine::Ollama | InferenceEngine::Custom => return effects,
            _ => {},
        }
        let current = trim(self.tabby_url_input.as_str());
        let current_port = extract_loopback_port(current);
        let same_port = match (current_port, prev_port) {
            (Some(a), Some(b)) => a == b,
            (None, None) => true,
            _ => false,
        };
        let should_sync = current.unicode_len() == 0 || (is_loopback_url(current) && (same_port
            || current_port.is_none()));
        if should_sync {
            self.tabby_url_input = localhost_url_of(new_port);
            effects.push(Effect::PersistTabbyBaseUrl(copy_string(&self.tabby_url_input)));
        }
        effects
    }
}


/// Whether `f` and `effects` are `o` switched to TabbyAPI serving the model
/// folder `model` on its usual port: the launcher `launcher` is used and stored
/// (or the stored one removed when there is none), the provider URL points at
/// the port and is stored, and a blank provider label becomes `TabbyAPI` and
/// is stored. The status is left to the caller.
pub open spec fn tabbyapi_adopted(o: App, f: App, model: String, launcher: Option<String>, effects: Seq<Effect>) -> bool {
    let url = localhost_url(TABBY_API_DEFAULT_PORT);
    let relabel = trim_seq(o.openai_compat_label@).len() == 0;
    &&& f.inference_engine == InferenceEngine::TabbyApi
    &&& f.inference_selected_model == model
    &&& f.inference_port_input@ == dec(TABBY_API_DEFAULT_PORT as nat)
    &&& f.tabby_url_input@ == url
    &&& effects.len() == if relabel {
        3int
    } else {
        2int
    }
    &&& match launcher {
        Some(l) => f.inference_binary_path == l && persists_binary(effects[0], l@),
        None => f.inference_binary_path@.len() == 0 && effects[0] is ClearStoredInferenceBinary,
    }
    &&& persists_url(effects[1], url)
    &&& relabel ==> f.openai_compat_label@ == "TabbyAPI"@ && persists_label(effects[2], "TabbyAPI"@)
    &&& !relabel ==> f.openai_compat_label == o.openai_compat_label
    &&& f == (App {
        inference_engine: f.inference_engine,
        inference_selected_model: f.inference_selected_model,
        inference_port_input: f.inference_port_input,
        inference_binary_path: f.inference_binary_path,
        tabby_url_input: f.tabby_url_input,
        openai_compat_label: f.openai_compat_label,
        ..o
    })
}

impl App {
    /// Switches to TabbyAPI serving model folder `model` (see
    /// `tabbyapi_adopted`).
    pub(crate) fn adopt_tabbyapi_model(&mut self, model: String, launcher: Option<String>) -> (effects: Vec<Effect>)
        ensures
            tabbyapi_adopted(*old(self), *final(self), model, launcher, effects@),
    {
        let mut effects: Vec<Effect> = Vec::new();
        self.inference_engine = InferenceEngine::TabbyApi;
        self.inference_selected_model = model;
        self.inference_port_input = decimal(TABBY_API_DEFAULT_PORT as u64);
        match launcher {
            Some(l) => {
                effects.push(Effect::PersistInferenceBinary(copy_string(&l)));
                self.inference_binary_path = l;
            },
            None => {
                self.inference_binary_path = String::new();
                effects.push(Effect::ClearStoredInferenceBinary);
            },
        }
        self.tabby_url_input = localhost_url_of(TABBY_API_DEFAULT_PORT);
        effects.push(Effect::PersistTabbyBaseUrl(copy_string(&self.tabby_url_input)));
        if trim(self.openai_compat_label.as_str()).unicode_len() == 0 {
            self.openai_compat_label = String::from_str("TabbyAPI");
            effects.push(Effect::PersistOpenAiCompatLabel(String::from_str("TabbyAPI")));
        }
        effects
    }

    /// Runs the downloaded model `folder_name` with TabbyAPI. `model_path` is
    /// the folder's path, `resolved` the TabbyAPI model folder found in it
    /// (none when it holds no usable model), and `launcher` the TabbyAPI
    /// launcher found in the default runtime directory. The engine, model,
    /// port, launcher and provider endpoint are set and stored (see
    /// `tabbyapi_adopted`); when no model folder is found the reason is
    /// reported instead.
    pub fn select_downloaded_model(
        &mut self,
        folder_name: &str,
        model_path: &str,
        resolved: Option<String>,
        launcher: Option<String>,
    ) -> (effects: Vec<Effect>)
        ensures
            ({
                let o = *old(self);
                let f = *final(self);
                match resolved {
                    None => {
                        &&& effects@.len() == 0
                        &&& f.status@ == unresolved_model_text(model_path@)
                        &&& f.tabby_status matches Some(Err(m)) && m@ == f.status@
                        &&& f == (App { status: f.status, tabby_status: f.tabby_status, ..o })
                    },
                    Some(r) => {
                        &&& tabbyapi_adopted(o, App { status: o.status, ..f }, r, launcher, effects@)
                        &&& f.status@ == "다운로드된 모델 선택됨: "@ + folder_name@
                            + " — Runtime에서 시작 후 연결 테스트"@
                    },
                }
            }),
    {
        let r = match resolved {
            None => {
                let mut m = String::from_str("TabbyAPI 모델 폴더를 확정할 수 없습니다: ");
                m.append(model_path);
                m.append(
                    " (config.json+가중치 파일이 필요하며, 여러 하위 모델이면 폴더 이름에 bpw 힌트가 포함되어야 합니다.)",
                );
                self.status = copy_string(&m);
                self.tabby_status = Some(Err(m));
                return Vec::new();
            },
            Some(r) => r,
        };
        let effects = self.adopt_tabbyapi_model(r, launcher);
        let mut st = String::from_str("다운로드된 모델 선택됨: ");
        st.append(folder_name);
        st.append(" — Runtime에서 시작 후 연결 테스트");
        self.status = st;
        effects
    }

    /// Takes in the model directory the user picked, if any: it is set and
    /// stored, a local model it no longer holds is deselected (`downloaded`
    /// lists its model folders), and the change is reported.
    pub fn on_model_dir_picked(&mut self, picked: Option<String>, downloaded: &Vec<String>) -> (effects: Vec<Effect>)
        ensures
            ({
                let o = *old(self);
                let f = *final(self);
                match picked {
                    None => effects@.len() == 0 && f == o,
                    Some(dir) => {
                        let mid = App { model_dir_input: dir, ..o };
                        let clears = is_local_dir_engine(o.inference_engine)
                            && !local_model_available(mid, views(downloaded@));
                        &&& effects@.len() == 1
                        &&& effects@[0] matches Effect::PersistModelDir(d) && d == dir
                        &&& f.model_dir_input == dir
                        &&& clears ==> f.inference_selected_model@.len() == 0
                        &&& !clears ==> f.inference_selected_model == o.inference_selected_model
                        &&& f.status@ == "모델 다운로드 경로 저장됨"@
                        &&& f == (App {
                            model_dir_input: dir,
                            inference_selected_model: f.inference_selected_model,
                            status: f.status,
                            ..o
                        })
                    },
                }
            }),
    {
        let mut effects: Vec<Effect> = Vec::new();
        if let Some(dir) = picked {
            effects.push(Effect::PersistModelDir(copy_string(&dir)));
            self.model_dir_input = dir;
            self.sync_selected_local_model_for_model_dir(downloaded);
            self.status = String::from_str("모델 다운로드 경로 저장됨");
        }
        effects
    }

    /// Takes in the binary or launcher script the user picked, if any, whose
    /// kind on disk is `kind`. For TabbyAPI a path that is not a launcher
    /// script is refused with the reason; otherwise the path is set and
    /// stored.
    pub fn on_inference_binary_picked(&mut self, picked: Option<String>, kind: PathKind) -> (effects: Vec<Effect>)
        ensures
            ({
                let o = *old(self);
                let f = *final(self);
                let tabby = o.inference_engine == InferenceEngine::TabbyApi;
                match picked {
                    None => effects@.len() == 0 && f == o,
                    Some(p) => match launcher_verdict(o.platform, p@, kind) {
                        Err(m) if tabby => {
                            &&& effects@.len() == 0
                            &&& f.status@ == m
                            &&& f.tabby_status matches Some(Err(t)) && t@ == m
                            &&& f == (App { status: f.status, tabby_status: f.tabby_status, ..o })
                        },
                        _ => {
                            &&& effects@.len() == 1
                            &&& persists_binary(effects@[0], p@)
                            &&& f.inference_binary_path == p
                            &&& f.status@ == if tabby {
                                "TabbyAPI script 경로 저장됨"@
                            } else {
                                "바이너리 경로 저장됨"@
                            }
                            &&& f == (App { inference_binary_path: p, status: f.status, ..o })
                        },
                    },
                }
            }),
    {
        let mut effects: Vec<Effect> = Vec::new();
        let p = match picked {
            None => return effects,
            Some(p) => p,
        };
        let tabby = matches!(self.inference_engine, InferenceEngine::TabbyApi);
        if tabby {
            if let Err(msg) = validate_tabbyapi_launcher_path(self.platform, p.as_str(), kind) {
                self.status = copy_string(&msg);
                self.tabby_status = Some(Err(msg));
                return effects;
            }
        }
        effects.push(Effect::PersistInferenceBinary(copy_string(&p)));
        self.inference_binary_path = p;
        self.status = String::from_str(
            if tabby {
                "TabbyAPI script 경로 저장됨"
            } else {
                "바이너리 경로 저장됨"
            },
        );
        effects
    }

    /// Takes in the outcome of installing the TabbyAPI runtime: on success the
    /// engine becomes TabbyAPI with the installed launcher, the default port
    /// and the provider endpoint on it, all stored; on failure the reason is
    /// reported.
    pub fn on_tabbyapi_runtime_installed(&mut self, result: Result<String, String>) -> (effects: Vec<Effect>)
        ensures
            ({
                let o = *old(self);
                let f = *final(self);
                match result {
                    Ok(l) => {
                        &&& f.inference_engine == InferenceEngine::TabbyApi
                        &&& f.inference_binary_path == l
                        &&& f.inference_port_input@ == dec(TABBY_API_DEFAULT_PORT as nat)
                        &&& f.tabby_url_input@ == localhost_url(TABBY_API_DEFAULT_PORT)
                        &&& f.openai_compat_label@ == "TabbyAPI"@
                        &&& f.status@ == "TabbyAPI 런타임 설치/감지 완료: "@ + l@
                            + " — 모델 선택 후 시작하세요."@
                        &&& effects@.len() == 3
                        &&& persists_binary(effects@[0], l@)
                        &&& persists_url(effects@[1], localhost_url(TABBY_API_DEFAULT_PORT))
                        &&& persists_label(effects@[2], "TabbyAPI"@)
                        &&& f == (App {
                            inference_engine: f.inference_engine,
                            inference_binary_path: f.inference_binary_path,
                            inference_port_input: f.inference_port_input,
                            tabby_url_input: f.tabby_url_input,
                            openai_compat_label: f.openai_compat_label,
                            status: f.status,
                            ..o
                        })
                    },
                    Err(e) => {
                        &&& effects@.len() == 0
                        &&& f.status@ == "TabbyAPI 런타임 설치 실패: "@ + e@
                            + ". Git/Python 설치와 네트워크를 확인해 주세요."@
                        &&& f.tabby_status matches Some(Err(m)) && m@ == f.status@
                        &&& f == (App { status: f.status, tabby_status: f.tabby_status, ..o })
                    },
                }
            }),
    {
        let mut effects: Vec<Effect> = Vec::new();
        match result {
            Ok(l) => {
                self.inference_engine = InferenceEngine::TabbyApi;
                self.inference_port_input = decimal(TABBY_API_DEFAULT_PORT as u64);
                self.tabby_url_input = localhost_url_of(TABBY_API_DEFAULT_PORT);
                self.openai_compat_label = String::from_str("TabbyAPI");
                effects.push(Effect::PersistInferenceBinary(copy_string(&l)));
                effects.push(Effect::PersistTabbyBaseUrl(copy_string(&self.tabby_url_input)));
                effects.push(Effect::PersistOpenAiCompatLabel(String::from_str("TabbyAPI")));
                let mut st = String::from_str("TabbyAPI 런타임 설치/감지 완료: ");
                st.append(l.as_str());
                st.append(" — 모델 선택 후 시작하세요.");
                self.status = st;
                self.inference_binary_path = l;
            },
            Err(e) => {
                let mut st = String::from_str("TabbyAPI 런타임 설치 실패: ");
                st.append(e.as_str());
                st.append(". Git/Python 설치와 네트워크를 확인해 주세요.");
                self.status = copy_string(&st);
                self.tabby_status = Some(Err(st));
            },
        }
        effects
    }

    /// Sets the start command of the custom engine, and stores it.
    pub fn set_inference_command(&mut self, value: String) -> (e: Effect)
        ensures
            e matches Effect::PersistInferenceCommand(c) && c == value,
            *final(self) == (App { inference_command_input: value, ..*old(self) }),
    {
        let e = Effect::PersistInferenceCommand(copy_string(&value));
        self.inference_command_input = value;
        e
    }

    /// Sets the model the runtime serves.
    pub fn set_inference_model(&mut self, value: String)
        ensures
            *final(self) == (App { inference_selected_model: value, ..*old(self) }),
    {
        self.inference_selected_model = value;
    }

    /// Sets the binary or launcher path typed by the user, and stores it.
    pub fn set_inference_binary(&mut self, value: String) -> (e: Effect)
        ensures
            persists_binary(e, value@),
            *final(self) == (App { inference_binary_path: value, ..*old(self) }),
    {
        let e = Effect::PersistInferenceBinary(copy_string(&value));
        self.inference_binary_path = value;
        e
    }

    /// Sets the model directory typed by the user and stores it; a local model
    /// it no longer holds is deselected (`downloaded` lists its model
    /// folders).
    pub fn set_model_dir(&mut self, value: String, downloaded: &Vec<String>) -> (e: Effect)
        ensures
            e matches Effect::PersistModelDir(d) && d == value,
            final(self).model_dir_input == value,
            ({
                let mid = App { model_dir_input: value, ..*old(self) };
                let clears = is_local_dir_engine(old(self).inference_engine)
                    && !local_model_available(mid, views(downloaded@));
                &&& clears ==> final(self).inference_selected_model@.len() == 0
                &&& !clears ==> final(self).inference_selected_model
                    == old(self).inference_selected_model
            }),
            *final(self) == (App {
                model_dir_input: value,
                inference_selected_model: final(self).inference_selected_model,
                ..*old(self)
            }),
    {
        let e = Effect::PersistModelDir(copy_string(&value));
        self.model_dir_input = value;
        self.sync_selected_local_model_for_model_dir(downloaded);
        e
    }
}

} // verus!
