//! The connection to the model providers: the OpenAI-compatible provider's URL
//! and token, listing its models with automatic retries while a local runtime
//! starts, the OpenRouter model list, and the model selector that both fill.
use crate::inference::{
    contains_string, favorites_synced, localhost_url, localhost_url_of, without_provider,
};
use crate::model::InferenceEngine;
use crate::runtime::{is_loopback, is_loopback_url};
use crate::selection::trim_trailing_slashes;
use crate::text::{dec, decimal, ends_with, lower_ascii, parse_u16, parse_u16_spec, to_ascii_lowercase, str_equals};
use crate::mention::views;
use crate::model::{copy_string, Effect, LlmProvider, ModelOption};
use crate::selection::{synced_provider, synced_provider_of};
use crate::state::{next_generation, App};
use crate::text::{trim, trim_seq};
use vstd::prelude::*;

verus! {

/// Seconds to wait before listing the provider's models again.
pub const TABBY_CONNECT_RETRY_DELAY_SECS: u64 = 4;

/// Whether `f` is `o` with the model selector refreshed: the recorded
/// provider of the selection brought in line with the options, and each
/// option's favourite flag set from the favourites.
pub open spec fn combo_refreshed(o: App, f: App) -> bool {
    &&& f.selected_model_provider == synced_provider(o)
    &&& favorites_synced(o.model_options@, f.model_options@, views(o.favorites@))
    &&& f == (App {
        selected_model_provider: f.selected_model_provider,
        model_options: f.model_options,
        ..o
    })
}

pub(crate) fn remove_provider_options(opts: &mut Vec<ModelOption>, p: LlmProvider)
    ensures
        final(opts)@ == without_provider(old(opts)@, p),
{
    let ghost orig = opts@;
    assert(orig.len() == opts.len());
    let mut rest: Vec<ModelOption> = Vec::new();
    std::mem::swap(&mut rest, opts);
    let mut k: usize = 0;
    assert(orig.take(0) =~= Seq::<ModelOption>::empty());
    while rest.len() > 0
        invariant
            k <= orig.len() <= usize::MAX,
            rest@.len() == orig.len() - k,
            rest@ == orig.skip(k as int),
            opts@ == without_provider(orig.take(k as int), p),
        decreases rest@.len(),
    {
        let o = rest.remove(0);
        proof {
            assert(orig.skip(k as int)[0] == orig[k as int]);
            assert(orig.skip(k as int).drop_first() =~= orig.skip(k + 1));
            assert(orig.take(k + 1).drop_last() =~= orig.take(k as int));
            assert(orig.take(k + 1).last() == orig[k as int]);
        }
        if o.provider != p {
            opts.push(o);
        }
        k = k + 1;
    }
    assert(orig.take(orig.len() as int) =~= orig);
}

impl App {
    /// Sets the favourite flag of every option from the favourites.
    fn sync_favorite_flags(&mut self)
        ensures
            favorites_synced(old(self).model_options@, final(self).model_options@, views(old(self).favorites@)),
            *final(self) == (App { model_options: final(self).model_options, ..*old(self) }),
    {
        let n = self.model_options.len();
        let mut i: usize = 0;
        while i < n
            invariant
                n == self.model_options@.len(),
                n == old(self).model_options@.len(),
                i <= n,
                *self == (App { model_options: self.model_options, ..*old(self) }),
                forall|j: int|
                    i <= j < n ==> #[trigger] self.model_options@[j] == old(self).model_options@[j],
                forall|j: int|
                    0 <= j < i ==> {
                        &&& (#[trigger] self.model_options@[j]).id == old(self).model_options@[j].id
                        &&& self.model_options@[j].provider == old(self).model_options@[j].provider
                        &&& self.model_options@[j].provider_label == old(self).model_options@[j].provider_label
                        &&& self.model_options@[j].ko_friendly == old(self).model_options@[j].ko_friendly
                        &&& self.model_options@[j].context_length == old(self).model_options@[j].context_length
                        &&& self.model_options@[j].favorite == views(old(self).favorites@).contains(
                            old(self).model_options@[j].id@,
                        )
                    },
            decreases n - i,
        {
            let fav = contains_string(&self.favorites, self.model_options[i].id.as_str());
            self.model_options[i].favorite = fav;
            i = i + 1;
        }
    }

    /// Refreshes the model selector: the recorded provider of the selection is
    /// brought in line with the options and the favourite flags with the
    /// favourites.
    pub fn refresh_model_combo(&mut self)
        ensures
            combo_refreshed(*old(self), *final(self)),
    {
        self.sync_selected_model_provider();
        self.sync_favorite_flags();
    }
}


/// The request that lists the provider's models, as plain values: the URL and
/// the token, none when the token input is blank.
pub open spec fn fetch_request(app: App) -> (Seq<char>, Option<Seq<char>>) {
    (
        app.tabby_url_input@,
        if trim_seq(app.tabby_token_input@).len() == 0 {
            None
        } else {
            Some(app.tabby_token_input@)
        },
    )
}

/// Whether `e` lists the provider's models as `fetch_request(app)` says.
pub open spec fn is_fetch_of(e: Effect, app: App) -> bool {
    e matches Effect::FetchTabbyModels { url, token } && (url@, crate::text::opt_view(token))
        == fetch_request(app)
}

/// Whether the first option of `opts` with id `id` exists.
pub open spec fn has_option_id(opts: Seq<ModelOption>, id: Seq<char>) -> bool {
    crate::selection::first_option(opts, id, None) >= 0
}

impl App {
    fn fetch_effect(&self) -> (e: Effect)
        ensures
            is_fetch_of(e, *self),
    {
        let token = if trim(self.tabby_token_input.as_str()).unicode_len() == 0 {
            None
        } else {
            Some(copy_string(&self.tabby_token_input))
        };
        Effect::FetchTabbyModels { url: copy_string(&self.tabby_url_input), token }
    }

    /// Sets the provider URL typed by the user; a pending automatic retry is
    /// cancelled, as its generation is no longer current.
    pub fn set_tabby_url(&mut self, value: String)
        ensures
            *final(self) == (App {
                tabby_url_input: value,
                tabby_connect_retry_left: 0,
                tabby_retry_generation: next_generation(old(self).tabby_retry_generation),
                ..*old(self)
            }),
    {
        self.tabby_url_input = value;
        self.tabby_connect_retry_left = 0;
        self.tabby_retry_generation = self.tabby_retry_generation.saturating_add(1);
    }

    /// Sets the provider token typed by the user; a pending automatic retry is
    /// cancelled, as its generation is no longer current.
    pub fn set_tabby_token(&mut self, value: String)
        ensures
            *final(self) == (App {
                tabby_token_input: value,
                tabby_connect_retry_left: 0,
                tabby_retry_generation: next_generation(old(self).tabby_retry_generation),
                ..*old(self)
            }),
    {
        self.tabby_token_input = value;
        self.tabby_connect_retry_left = 0;
        self.tabby_retry_generation = self.tabby_retry_generation.saturating_add(1);
    }

    /// Lists the provider's models at the user's request: the retry generation
    /// advances, so a pending automatic retry is dropped; a blank URL is
    /// reported instead.
    pub fn fetch_tabby_models(&mut self) -> (e: Option<Effect>)
        ensures
            final(self).tabby_retry_generation == next_generation(old(self).tabby_retry_generation),
            trim_seq(old(self).tabby_url_input@).len() == 0 ==> {
                &&& e is None
                &&& final(self).tabby_status matches Some(Err(m)) && m@ == "URL 비어있음"@
                &&& *final(self) == (App {
                    tabby_retry_generation: final(self).tabby_retry_generation,
                    tabby_status: final(self).tabby_status,
                    ..*old(self)
                })
            },
            trim_seq(old(self).tabby_url_input@).len() > 0 ==> {
                &&& e matches Some(f) && is_fetch_of(f, *old(self))
                &&& final(self).status@ == "Tabby 모델 가져오는 중…"@
                &&& *final(self) == (App {
                    tabby_retry_generation: final(self).tabby_retry_generation,
                    status: final(self).status,
                    ..*old(self)
                })
            },
    {
        self.tabby_retry_generation = self.tabby_retry_generation.saturating_add(1);
        if trim(self.tabby_url_input.as_str()).unicode_len() == 0 {
            self.tabby_status = Some(Err(String::from_str("URL 비어있음")));
            return None;
        }
        let e = self.fetch_effect();
        self.status = String::from_str("Tabby 모델 가져오는 중…");
        Some(e)
    }

    /// Retries listing the provider's models when `generation` is still the
    /// current retry generation; a stale retry does nothing.
    pub fn retry_fetch_tabby_models(&mut self, generation: u64) -> (e: Option<Effect>)
        ensures
            generation != old(self).tabby_retry_generation ==> e is None && *final(self) == *old(self),
            generation == old(self).tabby_retry_generation && trim_seq(
                old(self).tabby_url_input@,
            ).len() == 0 ==> {
                &&& e is None
                &&& final(self).tabby_status matches Some(Err(m)) && m@ == "URL 비어있음"@
                &&& *final(self) == (App { tabby_status: final(self).tabby_status, ..*old(self) })
            },
            generation == old(self).tabby_retry_generation && trim_seq(
                old(self).tabby_url_input@,
            ).len() > 0 ==> {
                &&& e matches Some(f) && is_fetch_of(f, *old(self))
                &&& final(self).status@ == "Tabby 모델 재시도 중…"@
                &&& *final(self) == (App { status: final(self).status, ..*old(self) })
            },
    {
        if generation != self.tabby_retry_generation {
            return None;
        }
        if trim(self.tabby_url_input.as_str()).unicode_len() == 0 {
            self.tabby_status = Some(Err(String::from_str("URL 비어있음")));
            return None;
        }
        let e = self.fetch_effect();
        self.status = String::from_str("Tabby 모델 재시도 중…");
        Some(e)
    }

    /// Forgets the provider settings: the stored URL and token are removed, the
    /// inputs cleared, a pending retry cancelled, the provider's models
    /// dropped, and a selection that is no longer offered replaced by the first
    /// remaining option, or cleared.
    pub fn clear_tabby_settings(&mut self) -> (effects: Vec<Effect>)
        ensures
            ({
                let o = *old(self);
                let f = *final(self);
                let opts = without_provider(o.model_options@, LlmProvider::OpenAICompat);
                let missing = o.selected_model matches Some(s) && !has_option_id(opts, s@);
                &&& effects@.len() >= 2
                &&& effects@[0] is ClearStoredTabbyBaseUrl
                &&& effects@[1] is ClearStoredTabbyToken
                &&& f.tabby_url_input@.len() == 0
                &&& f.tabby_token_input@.len() == 0
                &&& f.tabby_connect_retry_left == 0
                &&& f.tabby_retry_generation == next_generation(o.tabby_retry_generation)
                &&& f.tabby_status is None
                &&& f.status@ == "Tabby 설정 삭제됨"@
                &&& favorites_synced(opts, f.model_options@, views(o.favorites@))
                &&& !missing ==> {
                    &&& effects@.len() == 2
                    &&& f.selected_model == o.selected_model
                    &&& f.selected_model_provider == synced_provider_of(
                        opts,
                        o.selected_model,
                        o.selected_model_provider,
                        Seq::empty(),
                    )
                }
                &&& missing && opts.len() > 0 ==> {
                    &&& effects@.len() == 3
                    &&& f.selected_model == Some(opts[0].id)
                    &&& f.selected_model_provider == Some(opts[0].provider)
                    &&& effects@[2] matches Effect::PersistSelectedModel(id) && id == opts[0].id
                }
                &&& missing && opts.len() == 0 ==> {
                    &&& effects@.len() == 2
                    &&& f.selected_model is None
                    &&& f.selected_model_provider is None
                }
                &&& f == (App {
                    tabby_url_input: f.tabby_url_input,
                    tabby_token_input: f.tabby_token_input,
                    tabby_connect_retry_left: 0,
                    tabby_retry_generation: f.tabby_retry_generation,
                    tabby_status: None,
                    status: f.status,
                    model_options: f.model_options,
                    selected_model: f.selected_model,
                    selected_model_provider: f.selected_model_provider,
                    ..o
                })
            }),
    {
        let mut effects: Vec<Effect> = Vec::new();
        effects.push(Effect::ClearStoredTabbyBaseUrl);
        effects.push(Effect::ClearStoredTabbyToken);
        self.tabby_url_input = String::new();
        self.tabby_token_input = String::new();
        self.tabby_connect_retry_left = 0;
        self.tabby_retry_generation = self.tabby_retry_generation.saturating_add(1);
        self.tabby_status = None;
        self.status = String::from_str("Tabby 설정 삭제됨");
        remove_provider_options(&mut self.model_options, LlmProvider::OpenAICompat);
        let ghost opts = self.model_options@;
        self.refresh_model_combo();
        proof {
            crate::selection::lemma_first_option_ids(opts, self.model_options@);
        }
        let missing = match &self.selected_model {
            Some(_) => !self.selected_model_exists_in_options(),
            None => false,
        };
        if missing {
            if self.model_options.len() > 0 {
                let id = copy_string(&self.model_options[0].id);
                self.selected_model = Some(copy_string(&id));
                self.selected_model_provider = Some(self.model_options[0].provider);
                effects.push(Effect::PersistSelectedModel(id));
            } else {
                self.selected_model = None;
                self.selected_model_provider = None;
            }
        }
        effects
    }

    /// Sets the name under which the OpenAI-compatible provider's models are
    /// listed, relabels them, stores the name and refreshes the selector.
    pub fn set_openai_compat_label(&mut self, value: String) -> (e: Effect)
        ensures
            e matches Effect::PersistOpenAiCompatLabel(l) && l == value,
            final(self).openai_compat_label == value,
            final(self).selected_model_provider == synced_provider(*old(self)),
            final(self).model_options@.len() == old(self).model_options@.len(),
            forall|i: int|
                0 <= i < old(self).model_options@.len() ==> {
                    let a = old(self).model_options@[i];
                    let b = #[trigger] final(self).model_options@[i];
                    &&& b.id == a.id
                    &&& b.provider == a.provider
                    &&& b.ko_friendly == a.ko_friendly
                    &&& b.context_length == a.context_length
                    &&& b.favorite == views(old(self).favorites@).contains(a.id@)
                    &&& a.provider == LlmProvider::OpenAICompat ==> b.provider_label == value
                    &&& a.provider != LlmProvider::OpenAICompat ==> b.provider_label
                        == a.provider_label
                },
            *final(self) == (App {
                openai_compat_label: final(self).openai_compat_label,
                model_options: final(self).model_options,
                selected_model_provider: final(self).selected_model_provider,
                ..*old(self)
            }),
    {
        self.openai_compat_label = value;
        let e = Effect::PersistOpenAiCompatLabel(copy_string(&self.openai_compat_label));
        let n = self.model_options.len();
        let mut i: usize = 0;
        while i < n
            invariant
                n == self.model_options@.len(),
                n == old(self).model_options@.len(),
                i <= n,
                *self == (App {
                    openai_compat_label: value,
                    model_options: self.model_options,
                    ..*old(self)
                }),
                forall|j: int|
                    i <= j < n ==> #[trigger] self.model_options@[j] == old(self).model_options@[j],
                forall|j: int|
                    0 <= j < i ==> {
                        let a = old(self).model_options@[j];
                        let b = #[trigger] self.model_options@[j];
                        &&& b.id == a.id
                        &&& b.provider == a.provider
                        &&& b.ko_friendly == a.ko_friendly
                        &&& b.context_length == a.context_length
                        &&& b.favorite == a.favorite
                        &&& a.provider == LlmProvider::OpenAICompat ==> b.provider_label == value
                        &&& a.provider != LlmProvider::OpenAICompat ==> b.provider_label
                            == a.provider_label
                    },
            decreases n - i,
        {
            if self.model_options[i].provider == LlmProvider::OpenAICompat {
                let l = copy_string(&self.openai_compat_label);
                self.model_options[i].provider_label = l;
            }
            i = i + 1;
        }
        let ghost relabelled = *self;
        proof {
            crate::selection::lemma_first_option_ids(old(self).model_options@, self.model_options@);
        }
        assert(synced_provider(relabelled) == synced_provider(*old(self)));
        self.refresh_model_combo();
        e
    }

    /// What is to be stored when the user saves the provider settings.
    pub fn save_tabby_settings(&mut self) -> (e: Effect)
        ensures
            e matches Effect::SaveTabbySettings { url, token_text } && url == old(self).tabby_url_input && token_text == old(self).tabby_token_input,
            final(self).status@ == "Tabby 설정 저장 중…"@,
            *final(self) == (App { status: final(self).status, ..*old(self) }),
    {
        let e = Effect::SaveTabbySettings {
            url: copy_string(&self.tabby_url_input),
            token_text: copy_string(&self.tabby_token_input),
        };
        self.status = String::from_str("Tabby 설정 저장 중…");
        e
    }

    /// Takes in the outcome of saving the provider settings; returns whether
    /// the provider's models are to be listed next, which is when the save
    /// succeeded and the URL is not blank.
    pub fn on_tabby_saved(&mut self, result: Result<(), String>) -> (fetch: bool)
        ensures
            match result {
                Ok(_) => fetch == (trim_seq(old(self).tabby_url_input@).len() > 0)
                    && final(self).status@ == "Tabby 설정 저장됨"@,
                Err(e) => !fetch && final(self).status@ == "Tabby 저장 실패: "@ + e@,
            },
            *final(self) == (App { status: final(self).status, ..*old(self) }),
    {
        match result {
            Ok(_) => {
                self.status = String::from_str("Tabby 설정 저장됨");
                trim(self.tabby_url_input.as_str()).unicode_len() > 0
            },
            Err(e) => {
                let mut m = String::from_str("Tabby 저장 실패: ");
                m.append(e.as_str());
                self.status = m;
                false
            },
        }
    }

    /// Selects model option `opt` for the chat and stores its id.
    pub fn select_model(&mut self, opt: ModelOption) -> (e: Effect)
        ensures
            e matches Effect::PersistSelectedModel(id) && id == opt.id,
            *final(self) == (App {
                selected_model: Some(opt.id),
                selected_model_provider: Some(opt.provider),
                ..*old(self)
            }),
    {
        let e = Effect::PersistSelectedModel(copy_string(&opt.id));
        self.selected_model_provider = Some(opt.provider);
        self.selected_model = Some(opt.id);
        e
    }
}


/// `s` without the `/v1` suffixes that end it.
pub open spec fn trim_trailing_v1(s: Seq<char>) -> Seq<char>
    decreases s.len(),
{
    if s.len() >= 3 && "/v1"@.is_suffix_of(s) {
        trim_trailing_v1(s.take(s.len() - 3))
    } else {
        s
    }
}

/// A provider URL reduced to its server: trimmed, and without trailing `/`
/// and `/v1` parts.
pub open spec fn url_base(url: Seq<char>) -> Seq<char> {
    trim_trailing_slashes(trim_trailing_v1(trim_trailing_slashes(trim_seq(url))))
}

/// Advice when the TabbyAPI launcher is not set.
pub open spec fn not_started_text() -> Seq<char> {
    "TabbyAPI 서버가 아직 실행되지 않았습니다. Runtime 탭에서 TabbyAPI script에 Start.bat/start.sh/main.py 경로를 지정하고 시작한 뒤 연결 테스트해 주세요."@
}

/// Advice when the provider URL and the runtime port disagree.
pub open spec fn port_mismatch_text(port: u16) -> Seq<char> {
    "Provider URL과 Runtime 포트가 다릅니다. Runtime 포트가 "@ + dec(port as nat)
        + " 이므로 Provider URL을 "@ + localhost_url(port) + " 로 맞춘 뒤 연결 테스트해 주세요."@
}

/// Advice when TabbyAPI does not answer yet at `url`.
pub open spec fn not_answering_text(url: Seq<char>) -> Seq<char> {
    "TabbyAPI 서버가 아직 응답하지 않습니다. Runtime 탭의 시작 상태와 로그를 확인한 뒤 "@ + url
        + " 로 연결 테스트해 주세요."@
}

/// Advice when a local engine has models but is not running.
pub open spec fn engine_not_running_text() -> Seq<char> {
    "서버가 아직 실행 중이 아닙니다. Runtime 탭에서 현재 엔진을 시작한 뒤 연결 테스트를 다시 실행해 주세요."@
}

/// The message for a failed attempt to list the provider's models. `explained`
/// is the error as the provider client explains it, `unreachable` whether the
/// server was not reached at all, and `has_models` whether the model directory
/// holds downloaded models. When no local runtime was started by the app, the
/// URL points at this machine and the server was not reached, the message says
/// what to do about the local runtime; otherwise it is the explained error.
pub open spec fn connection_error_text(app: App, explained: Seq<char>, unreachable: bool, has_models: bool) -> Seq<char> {
    if app.inference_pid is Some || !is_loopback(app.tabby_url_input@) || !unreachable {
        explained
    } else if app.inference_engine == InferenceEngine::TabbyApi {
        if trim_seq(app.inference_binary_path@).len() == 0 {
            not_started_text()
        } else {
            let base = url_base(app.tabby_url_input@);
            match parse_u16_spec(trim_seq(app.inference_port_input@)) {
                Some(port) => if base.len() > 0 && lower_ascii(base) != lower_ascii(localhost_url(port)) {
                    port_mismatch_text(port)
                } else {
                    not_answering_text(trim_seq(app.tabby_url_input@))
                },
                None => not_answering_text(trim_seq(app.tabby_url_input@)),
            }
        }
    } else if has_models {
        engine_not_running_text()
    } else {
        explained
    }
}

fn trim_end_slashes(s: &str) -> (r: &str)
    ensures
        r@ == trim_trailing_slashes(s@),
{
    let mut hi = s.unicode_len();
    assert(s@.take(hi as int) =~= s@);
    while hi > 0 && s.get_char(hi - 1) == '/'
        invariant
            hi <= s@.len(),
            trim_trailing_slashes(s@) == trim_trailing_slashes(s@.take(hi as int)),
        decreases hi,
    {
        assert(s@.take(hi as int).drop_last() =~= s@.take(hi - 1));
        hi = hi - 1;
    }
    s.substring_char(0, hi)
}

fn trim_end_v1(s: &str) -> (r: &str)
    ensures
        r@ == trim_trailing_v1(s@),
{
    let mut t = s;
    proof {
        reveal_strlit("/v1");
    }
    while t.unicode_len() >= 3 && ends_with(t, "/v1")
        invariant
            trim_trailing_v1(s@) == trim_trailing_v1(t@),
        decreases t@.len(),
    {
        t = t.substring_char(0, t.unicode_len() - 3);
    }
    t
}

impl App {
    /// The message for a failed attempt to list the provider's models (see
    /// `connection_error_text`).
    pub fn compose_tabby_connection_error(&self, explained: &str, unreachable: bool, has_models: bool) -> (r: String)
        ensures
            r@ == connection_error_text(*self, explained@, unreachable, has_models),
    {
        if self.inference_pid.is_some() || !is_loopback_url(self.tabby_url_input.as_str())
            || !unreachable {
            return String::from_str(explained);
        }
        if matches!(self.inference_engine, InferenceEngine::TabbyApi) {
            if trim(self.inference_binary_path.as_str()).unicode_len() == 0 {
                return String::from_str(
                    "TabbyAPI 서버가 아직 실행되지 않았습니다. Runtime 탭에서 TabbyAPI script에 Start.bat/start.sh/main.py 경로를 지정하고 시작한 뒤 연결 테스트해 주세요.",
                );
            }
            let url = trim(self.tabby_url_input.as_str());
            if let Some(port) = parse_u16(trim(self.inference_port_input.as_str())) {
                let expected = localhost_url_of(port);
                let base = trim_end_slashes(trim_end_v1(trim_end_slashes(url)));
                if base.unicode_len() > 0 && !str_equals(
                    to_ascii_lowercase(base).as_str(),
                    to_ascii_lowercase(expected.as_str()).as_str(),
                ) {
                    let mut m = String::from_str("Provider URL과 Runtime 포트가 다릅니다. Runtime 포트가 ");
                    m.append(decimal(port as u64).as_str());
                    m.append(" 이므로 Provider URL을 ");
                    m.append(expected.as_str());
                    m.append(" 로 맞춘 뒤 연결 테스트해 주세요.");
                    return m;
                }
            }
            let mut m = String::from_str(
                "TabbyAPI 서버가 아직 응답하지 않습니다. Runtime 탭의 시작 상태와 로그를 확인한 뒤 ",
            );
            m.append(url);
            m.append(" 로 연결 테스트해 주세요.");
            return m;
        }
        if has_models {
            return String::from_str(
                "서버가 아직 실행 중이 아닙니다. Runtime 탭에서 현재 엔진을 시작한 뒤 연결 테스트를 다시 실행해 주세요.",
            );
        }
        String::from_str(explained)
    }
}


/// The options the provider's listed model ids become: labelled `label`, with
/// the Korean-friendliness flags `ko`, and flagged as favourites when
/// `favs` holds their id.
pub open spec fn listed_options(ids: Seq<String>, ko: Seq<bool>, label: String, favs: Seq<Seq<char>>) -> Seq<ModelOption> {
    Seq::new(
        ids.len(),
        |i: int|
            ModelOption {
                id: ids[i],
                provider: LlmProvider::OpenAICompat,
                provider_label: label,
                ko_friendly: ko[i],
                favorite: favs.contains(ids[i]@),
                context_length: None,
            },
    )
}

/// The connection summary shown for `n` listed models.
pub open spec fn listed_label(n: nat) -> Seq<char> {
    if n == 0 {
        "ok (모델 없음)"@
    } else {
        dec(n) + "개"@
    }
}

/// Whether `f` and `effects` are the outcome of the provider listing the
/// models `ids` (with Korean-friendliness flags `ko`): the provider's options
/// are replaced by the listed ones, the connection is reported, a selection
/// that is not one of the listed models moves to the first of them (which is
/// stored), and the selector is refreshed.
pub open spec fn tabby_models_listed(o: App, f: App, ids: Seq<String>, ko: Seq<bool>, effects: Seq<Effect>) -> bool {
    let base = without_provider(o.model_options@, LlmProvider::OpenAICompat);
    let opts = base + listed_options(ids, ko, o.openai_compat_label, views(o.favorites@));
    let moves = ids.len() > 0 && !(o.selected_model matches Some(s) && views(ids).contains(s@));
    let selected = if moves {
        Some(ids[0])
    } else {
        o.selected_model
    };
    let provider = if moves {
        Some(LlmProvider::OpenAICompat)
    } else {
        o.selected_model_provider
    };
    &&& f.tabby_connect_retry_left == 0
    &&& f.status@ == "Tabby 연결됨 — "@ + listed_label(ids.len())
    &&& f.tabby_status matches Some(Ok(l)) && l@ == listed_label(ids.len())
    &&& favorites_synced(opts, f.model_options@, views(o.favorites@))
    &&& f.selected_model == selected
    &&& f.selected_model_provider == synced_provider_of(opts, selected, provider, o.tabby_url_input@)
    &&& moves ==> (effects.len() == 1 && (effects[0] matches Effect::PersistSelectedModel(id) && id
        == ids[0]))
    &&& !moves ==> effects.len() == 0
    &&& f == (App {
        tabby_connect_retry_left: 0,
        status: f.status,
        tabby_status: f.tabby_status,
        model_options: f.model_options,
        selected_model: f.selected_model,
        selected_model_provider: f.selected_model_provider,
        ..o
    })
}

/// Whether `f` and `effects` are the outcome of the provider failing to list
/// its models with the message `msg` (see `connection_error_text`), where
/// `unreachable` tells whether the server was not reached: while the app's
/// own runtime runs and retries are left, one retry is scheduled; otherwise
/// the failure is reported and the selector refreshed. Either way the
/// provider's options are dropped.
pub open spec fn tabby_listing_failed(o: App, f: App, msg: Seq<char>, unreachable: bool, effects: Seq<Effect>) -> bool {
    let base = without_provider(o.model_options@, LlmProvider::OpenAICompat);
    let retry = o.inference_pid is Some && o.tabby_connect_retry_left > 0 && unreachable;
    &&& f.tabby_status matches Some(Err(m)) && m@ == msg
    &&& retry ==> {
        &&& f.tabby_connect_retry_left == o.tabby_connect_retry_left - 1
        &&& f.status@ == "Tabby 연결 재시도 예정: "@ + msg + " ("@ + dec(
            TABBY_CONNECT_RETRY_DELAY_SECS as nat,
        ) + "초 뒤 자동 재시도, 남은 "@ + dec(f.tabby_connect_retry_left as nat) + "회)"@
        &&& effects.len() == 1
        &&& effects[0] matches Effect::RetryTabbyModels { delay_secs, generation } && delay_secs
            == TABBY_CONNECT_RETRY_DELAY_SECS && generation == o.tabby_retry_generation
        &&& f.model_options@ == base
        &&& f.selected_model_provider == o.selected_model_provider
    }
    &&& !retry ==> {
        &&& f.tabby_connect_retry_left == 0
        &&& f.status@ == "Tabby 연결 실패: "@ + msg
        &&& effects.len() == 0
        &&& favorites_synced(base, f.model_options@, views(o.favorites@))
        &&& f.selected_model_provider == synced_provider_of(
            base,
            o.selected_model,
            o.selected_model_provider,
            o.tabby_url_input@,
        )
    }
    &&& f == (App {
        tabby_connect_retry_left: f.tabby_connect_retry_left,
        status: f.status,
        tabby_status: f.tabby_status,
        model_options: f.model_options,
        selected_model_provider: f.selected_model_provider,
        ..o
    })
}

impl App {
    /// Takes in the provider's model list: `result` holds the listed ids, or
    /// the error as the provider client explains it; `ko_friendly` flags the
    /// listed ids that are Korean-friendly, in order; `unreachable` tells
    /// whether the server was not reached and `has_models` whether the model
    /// directory holds downloaded models (see `tabby_models_listed` and
    /// `tabby_listing_failed`).
    #[verifier::rlimit(60)]
    pub fn on_tabby_models_loaded(
        &mut self,
        result: Result<Vec<String>, String>,
        ko_friendly: &Vec<bool>,
        unreachable: bool,
        has_models: bool,
    ) -> (effects: Vec<Effect>)
        requires
            result matches Ok(ids) ==> ko_friendly@.len() == ids@.len(),
        ensures
            match result {
                Ok(ids) => tabby_models_listed(
                    *old(self),
                    *final(self),
                    ids@,
                    ko_friendly@,
                    effects@,
                ),
                Err(e) => tabby_listing_failed(
                    *old(self),
                    *final(self),
                    connection_error_text(*old(self), e@, unreachable, has_models),
                    unreachable,
                    effects@,
                ),
            },
    {
        let mut effects: Vec<Effect> = Vec::new();
        match result {
            Ok(ids) => {
                let ghost o = *self;
                remove_provider_options(&mut self.model_options, LlmProvider::OpenAICompat);
                let ghost base = self.model_options@;
                self.tabby_connect_retry_left = 0;
                let n = ids.len();
                let label = if n == 0 {
                    String::from_str("ok (모델 없음)")
                } else {
                    let mut l = decimal(n as u64);
                    l.append("개");
                    l
                };
                assert((n as u64) as nat == ids@.len());
                assert(label@ == listed_label(ids@.len()));
                let mut st = String::from_str("Tabby 연결됨 — ");
                st.append(label.as_str());
                self.status = st;
                self.tabby_status = Some(Ok(label));
                let ghost listed = listed_options(ids@, ko_friendly@, o.openai_compat_label, views(o.favorites@));
                let ghost pre_loop = *self;
                let mut i: usize = 0;
                while i < n
                    invariant
                        n == ids@.len(),
                        n == ko_friendly@.len(),
                        i <= n,
                        self.favorites == o.favorites,
                        self.openai_compat_label == o.openai_compat_label,
                        listed == listed_options(ids@, ko_friendly@, o.openai_compat_label, views(o.favorites@)),
                        self.model_options@ == base + listed.take(i as int),
                        *self == (App { model_options: self.model_options, ..pre_loop }),
                    decreases n - i,
                {
                    let fav = contains_string(&self.favorites, ids[i].as_str());
                    let opt = ModelOption {
                        id: copy_string(&ids[i]),
                        provider: LlmProvider::OpenAICompat,
                        provider_label: copy_string(&self.openai_compat_label),
                        ko_friendly: ko_friendly[i],
                        favorite: fav,
                        context_length: None,
                    };
                    self.model_options.push(opt);
                    assert(self.model_options@ =~= base + listed.take(i + 1));
                    i = i + 1;
                }
                assert(listed.take(n as int) =~= listed);
                if n > 0 {
                    let selected_is_tabby = match &self.selected_model {
                        Some(s) => contains_string(&ids, s.as_str()),
                        None => false,
                    };
                    if !selected_is_tabby {
                        self.selected_model = Some(copy_string(&ids[0]));
                        self.selected_model_provider = Some(LlmProvider::OpenAICompat);
                        effects.push(Effect::PersistSelectedModel(copy_string(&ids[0])));
                    }
                }
                self.refresh_model_combo();
            },
            Err(e) => {
                let msg = self.compose_tabby_connection_error(e.as_str(), unreachable, has_models);
                remove_provider_options(&mut self.model_options, LlmProvider::OpenAICompat);
                let retry = self.inference_pid.is_some() && self.tabby_connect_retry_left > 0
                    && unreachable;
                if retry {
                    self.tabby_connect_retry_left = self.tabby_connect_retry_left - 1;
                    let mut st = String::from_str("Tabby 연결 재시도 예정: ");
                    st.append(msg.as_str());
                    st.append(" (");
                    st.append(decimal(TABBY_CONNECT_RETRY_DELAY_SECS).as_str());
                    st.append("초 뒤 자동 재시도, 남은 ");
                    st.append(decimal(self.tabby_connect_retry_left as u64).as_str());
                    st.append("회)");
                    self.status = st;
                    self.tabby_status = Some(Err(msg));
                    effects.push(
                        Effect::RetryTabbyModels {
                            delay_secs: TABBY_CONNECT_RETRY_DELAY_SECS,
                            generation: self.tabby_retry_generation,
                        },
                    );
                    return effects;
                }
                self.tabby_connect_retry_left = 0;
                let mut st = String::from_str("Tabby 연결 실패: ");
                st.append(msg.as_str());
                self.status = st;
                self.tabby_status = Some(Err(msg));
                self.refresh_model_combo();
            },
        }
        effects
    }
}


/// A model the OpenRouter listing returned: its id, context length, and
/// whether it is Korean-friendly.
pub struct ListedModel {
    pub id: String,
    pub context_length: Option<u64>,
    pub ko_friendly: bool,
}

/// Whether `after` is the options of `o` once the OpenRouter listing `models`
/// replaces OpenRouter's options: the other providers' options keep their
/// order, and the listed models follow in theirs, unlabelled, each flagged as
/// a favourite when the favourites hold its id.
pub open spec fn openrouter_options_listed(o: App, after: Seq<ModelOption>, models: Seq<ListedModel>) -> bool {
    let base = without_provider(o.model_options@, LlmProvider::OpenRouter);
    let favs = views(o.favorites@);
    &&& after.len() == base.len() + models.len()
    &&& favorites_synced(base, after.take(base.len() as int), favs)
    &&& forall|i: int|
        0 <= i < models.len() ==> {
            let b = #[trigger] after[base.len() + i];
            &&& b.id == models[i].id
            &&& b.provider == LlmProvider::OpenRouter
            &&& b.provider_label@.len() == 0
            &&& b.ko_friendly == models[i].ko_friendly
            &&& b.favorite == favs.contains(models[i].id@)
            &&& b.context_length == models[i].context_length
        }
}

/// Whether `f` and `effects` are the outcome of the OpenRouter listing
/// `models`: OpenRouter's options are replaced by the listed ones and the
/// selector refreshed; when the selection is not among the options and no
/// provider URL is set, the first listed model is selected (and stored), or
/// the selection cleared when the list is empty.
pub open spec fn openrouter_models_listed(o: App, f: App, models: Seq<ListedModel>, effects: Seq<Effect>) -> bool {
    let opts = f.model_options@;
    let kept = o.selected_model matches Some(s) && has_option_id(opts, s@);
    let moves = !kept && trim_seq(o.tabby_url_input@).len() == 0;
    &&& openrouter_options_listed(o, opts, models)
    &&& f.status@ == "모델 "@ + dec(models.len()) + " 로드됨"@
    &&& !moves ==> {
        &&& effects.len() == 0
        &&& f.selected_model == o.selected_model
        &&& f.selected_model_provider == synced_provider_of(
            opts,
            o.selected_model,
            o.selected_model_provider,
            o.tabby_url_input@,
        )
    }
    &&& moves && models.len() > 0 ==> {
        &&& effects.len() == 1
        &&& effects[0] matches Effect::PersistSelectedModel(id) && id == models[0].id
        &&& f.selected_model == Some(models[0].id)
        &&& f.selected_model_provider == Some(LlmProvider::OpenRouter)
    }
    &&& moves && models.len() == 0 ==> {
        &&& effects.len() == 0
        &&& f.selected_model is None
        &&& f.selected_model_provider is None
    }
    &&& f == (App {
        model_options: f.model_options,
        status: f.status,
        selected_model: f.selected_model,
        selected_model_provider: f.selected_model_provider,
        ..o
    })
}

impl App {
    /// Takes in the OpenRouter model listing: `result` holds the listed models
    /// or the error as the OpenRouter client explains it (see
    /// `openrouter_models_listed`); an error is reported in the status.
    pub fn on_models_loaded(&mut self, result: Result<Vec<ListedModel>, String>) -> (effects: Vec<Effect>)
        ensures
            match result {
                Ok(models) => openrouter_models_listed(*old(self), *final(self), models@, effects@),
                Err(e) => {
                    &&& effects@.len() == 0
                    &&& final(self).status@ == "페치 실패: "@ + e@
                    &&& *final(self) == (App { status: final(self).status, ..*old(self) })
                },
            },
    {
        let mut effects: Vec<Effect> = Vec::new();
        match result {
            Ok(models) => {
                let ghost o = *self;
                remove_provider_options(&mut self.model_options, LlmProvider::OpenRouter);
                let ghost base = self.model_options@;
                let ghost favs = views(o.favorites@);
                let ghost pre_loop = *self;
                let n = models.len();
                let mut i: usize = 0;
                while i < n
                    invariant
                        n == models@.len(),
                        i <= n,
                        favs == views(o.favorites@),
                        self.favorites == o.favorites,
                        self.model_options@.len() == base.len() + i,
                        self.model_options@.take(base.len() as int) == base,
                        forall|j: int|
                            0 <= j < i ==> {
                                let b = #[trigger] self.model_options@[base.len() + j];
                                &&& b.id == models@[j].id
                                &&& b.provider == LlmProvider::OpenRouter
                                &&& b.provider_label@.len() == 0
                                &&& b.ko_friendly == models@[j].ko_friendly
                                &&& b.favorite == favs.contains(models@[j].id@)
                                &&& b.context_length == models@[j].context_length
                            },
                        *self == (App { model_options: self.model_options, ..pre_loop }),
                    decreases n - i,
                {
                    let fav = contains_string(&self.favorites, models[i].id.as_str());
                    let opt = ModelOption {
                        id: copy_string(&models[i].id),
                        provider: LlmProvider::OpenRouter,
                        provider_label: String::new(),
                        ko_friendly: models[i].ko_friendly,
                        favorite: fav,
                        context_length: models[i].context_length,
                    };
                    let ghost before = self.model_options@;
                    self.model_options.push(opt);
                    assert(self.model_options@.take(base.len() as int) =~= before.take(base.len() as int));
                    i = i + 1;
                }
                let ghost opts = self.model_options@;
                self.refresh_model_combo();
                proof {
                    crate::selection::lemma_first_option_ids(opts, self.model_options@);
                    let after = self.model_options@;
                    assert forall|k: int| 0 <= k < base.len() implies #[trigger] after.take(base.len() as int)[k] == after[k] && opts[k] == base[k] by {
                        assert(opts.take(base.len() as int)[k] == opts[k]);
                    }
                    assert forall|j: int| 0 <= j < models@.len() implies #[trigger] after[base.len() + j].favorite == favs.contains(models@[j].id@) by {
                        assert(opts[base.len() + j].id == models@[j].id);
                    }
                }
                let saved_in_list = self.selected_model_exists_in_options();
                if !saved_in_list && trim(self.tabby_url_input.as_str()).unicode_len() == 0 {
                    if n > 0 {
                        self.selected_model = Some(copy_string(&models[0].id));
                        self.selected_model_provider = Some(LlmProvider::OpenRouter);
                        effects.push(Effect::PersistSelectedModel(copy_string(&models[0].id)));
                    } else {
                        self.selected_model = None;
                        self.selected_model_provider = None;
                    }
                }
                let mut st = String::from_str("모델 ");
                st.append(decimal(n as u64).as_str());
                st.append(" 로드됨");
                assert((n as u64) as nat == models@.len());
                self.status = st;
            },
            Err(e) => {
                let mut st = String::from_str("페치 실패: ");
                st.append(e.as_str());
                self.status = st;
            },
        }
        effects
    }
}

fn copy_strings(v: &Vec<String>) -> (r: Vec<String>)
    ensures
        r@ == v@,
{
    let mut out: Vec<String> = Vec::new();
    let mut i: usize = 0;
    while i < v.len()
        invariant
            i <= v@.len(),
            out@ == v@.take(i as int),
        decreases v@.len() - i,
    {
        out.push(copy_string(&v[i]));
        assert(out@ =~= v@.take(i + 1));
        i = i + 1;
    }
    assert(v@.take(v@.len() as int) =~= v@);
    out
}

/// Whether a favourite is other than `id`.
pub open spec fn not_id(id: Seq<char>) -> spec_fn(Seq<char>) -> bool {
    |x: Seq<char>| x != id
}

/// The favourites `ids` with `id` added when it is not among them, and
/// removed when it is.
pub open spec fn favorites_toggled(ids: Seq<Seq<char>>, id: Seq<char>) -> Seq<Seq<char>> {
    if ids.contains(id) {
        ids.filter(not_id(id))
    } else {
        ids.push(id)
    }
}

impl App {
    /// Marks the selected model as a favourite, or unmarks it, and refreshes
    /// the model selector. Returns the favourites to store, or `None` when no
    /// model is selected (nothing changes then).
    pub fn toggle_favorite(&mut self) -> (r: Option<Vec<String>>)
        ensures
            ({
                let o = *old(self);
                let f = *final(self);
                match o.selected_model {
                    None => r is None && f == o,
                    Some(id) => {
                        &&& views(f.favorites@) == favorites_toggled(views(o.favorites@), id@)
                        &&& r matches Some(v) && v@ == f.favorites@
                        &&& combo_refreshed(App { favorites: f.favorites, ..o }, f)
                    },
                }
            }),
    {
        let id = match &self.selected_model {
            Some(id) => copy_string(id),
            None => {
                return None;
            },
        };
        if crate::inference::contains_string(&self.favorites, id.as_str()) {
            let ghost orig = self.favorites@;
            let ghost ids = views(orig);
            let ghost keep = not_id(id@);
            let mut rest: Vec<String> = Vec::new();
            std::mem::swap(&mut rest, &mut self.favorites);
            let mut k: usize = 0;
            assert(orig.len() == rest.len());
            assert(ids.take(0).filter(keep) =~= Seq::<Seq<char>>::empty()) by {
                reveal(Seq::filter);
            }
            assert(views(self.favorites@) =~= Seq::<Seq<char>>::empty());
            while rest.len() > 0
                invariant
                    k <= orig.len() <= usize::MAX,
                    ids == views(orig),
                    rest@.len() == orig.len() - k,
                    rest@ == orig.skip(k as int),
                    views(self.favorites@) == ids.take(k as int).filter(keep),
                    keep == not_id(id@),
                    *self == (App { favorites: self.favorites, ..*old(self) }),
                decreases rest@.len(),
            {
                let e = rest.remove(0);
                let ghost before = self.favorites@;
                proof {
                    assert(orig.skip(k as int)[0] == orig[k as int]);
                    assert(orig.skip(k as int).drop_first() =~= orig.skip(k + 1));
                    crate::seqs::lemma_filter_take_step(ids, keep, k as int);
                    assert(ids[k as int] == e@);
                }
                if !str_equals(e.as_str(), id.as_str()) {
                    self.favorites.push(e);
                    assert(views(self.favorites@) =~= views(before).push(ids[k as int]));
                }
                k = k + 1;
            }
            assert(ids.take(orig.len() as int) =~= ids);
        } else {
            let ghost before = self.favorites@;
            self.favorites.push(copy_string(&id));
            proof {
                assert(views(self.favorites@) =~= views(before).push(id@));
            }
        }
        let ghost mid = *self;
        let favs = copy_strings(&self.favorites);
        self.refresh_model_combo();
        assert(mid == (App { favorites: mid.favorites, ..*old(self) }));
        Some(favs)
    }
}

} // verus!
