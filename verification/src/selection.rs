//! Which model the chat uses and where requests for it go: the selected option,
//! its provider when several providers offer the same id, and the endpoint and
//! credential a request is sent with.
use crate::model::{LlmProvider, ModelOption};
use crate::state::App;
use crate::text::{ends_with, opt_view, str_equals, trim, trim_seq};
use crate::mention::views;
use vstd::prelude::*;

verus! {

/// The OpenRouter API base URL.
pub open spec fn openrouter_base_url() -> Seq<char> {
    "https://openrouter.ai/api/v1"@
}

/// Index of the first option with id `id` (and provider `prov`, when given),
/// or -1.
pub open spec fn first_option(opts: Seq<ModelOption>, id: Seq<char>, prov: Option<LlmProvider>) -> int
    decreases opts.len(),
{
    if opts.len() == 0 {
        -1
    } else if opts[0].id@ == id && (prov is None || opts[0].provider == prov->0) {
        0
    } else if first_option(opts.drop_first(), id, prov) < 0 {
        -1
    } else {
        1 + first_option(opts.drop_first(), id, prov)
    }
}

pub proof fn lemma_first_option(opts: Seq<ModelOption>, id: Seq<char>, prov: Option<LlmProvider>)
    ensures
        -1 <= first_option(opts, id, prov) < opts.len(),
        first_option(opts, id, prov) >= 0 ==> opts[first_option(opts, id, prov)].id@ == id && (
        prov is None || opts[first_option(opts, id, prov)].provider == prov->0),
        first_option(opts, id, prov) < 0 <==> !exists|i: int|
            0 <= i < opts.len() && #[trigger] opts[i].id@ == id && (prov is None || opts[i].provider
                == prov->0),
    decreases opts.len(),
{
    if opts.len() > 0 {
        lemma_first_option(opts.drop_first(), id, prov);
        if !(opts[0].id@ == id && (prov is None || opts[0].provider == prov->0)) {
            if first_option(opts.drop_first(), id, prov) < 0 {
                assert forall|i: int|
                    0 <= i < opts.len() && #[trigger] opts[i].id@ == id implies !(prov is None
                    || opts[i].provider == prov->0) by {
                    if i > 0 {
                        assert(opts[i] == opts.drop_first()[i - 1]);
                    }
                }
            } else {
                let j = first_option(opts.drop_first(), id, prov);
                assert(opts[j + 1] == opts.drop_first()[j]);
            }
        }
    }
}

/// Option lists with the same ids and providers, in the same order, are
/// searched alike.
pub proof fn lemma_first_option_ids(a: Seq<ModelOption>, b: Seq<ModelOption>)
    requires
        a.len() == b.len(),
        forall|i: int| 0 <= i < a.len() ==> #[trigger] a[i].id == b[i].id && a[i].provider == b[i].provider,
    ensures
        forall|id: Seq<char>, prov: Option<LlmProvider>|
            #[trigger] first_option(a, id, prov) == first_option(b, id, prov),
    decreases a.len(),
{
    if a.len() > 0 {
        assert forall|i: int| 0 <= i < a.drop_first().len() implies #[trigger] a.drop_first()[i].id
            == b.drop_first()[i].id && a.drop_first()[i].provider == b.drop_first()[i].provider by {
            assert(a[i + 1].id == b[i + 1].id);
        }
        lemma_first_option_ids(a.drop_first(), b.drop_first());
        assert forall|id: Seq<char>, prov: Option<LlmProvider>|
            #[trigger] first_option(a, id, prov) == first_option(b, id, prov) by {
            assert(first_option(a.drop_first(), id, prov) == first_option(b.drop_first(), id, prov));
            assert(a[0].id == b[0].id && a[0].provider == b[0].provider);
        }
    }
}

/// Index of the selected option: the first option with the selected id and the
/// selected provider, else the first with the selected id; -1 when nothing is
/// selected or no option has the id.
pub open spec fn selected_index(app: App) -> int {
    match app.selected_model {
        None => -1,
        Some(id) => {
            let opts = app.model_options@;
            if app.selected_model_provider is Some && first_option(
                opts,
                id@,
                app.selected_model_provider,
            ) >= 0 {
                first_option(opts, id@, app.selected_model_provider)
            } else {
                first_option(opts, id@, None)
            }
        },
    }
}

fn find_option(opts: &Vec<ModelOption>, id: &str, prov: Option<LlmProvider>) -> (r: Option<usize>)
    ensures
        match r {
            Some(i) => i == first_option(opts@, id@, prov),
            None => first_option(opts@, id@, prov) == -1,
        },
{
    proof {
        lemma_first_option(opts@, id@, prov);
    }
    let n = opts.len();
    let mut i: usize = 0;
    assert(opts@.skip(0) =~= opts@);
    while i < n
        invariant
            n == opts@.len(),
            i <= n,
            first_option(opts@, id@, prov) == if first_option(opts@.skip(i as int), id@, prov) < 0 {
                -1
            } else {
                i + first_option(opts@.skip(i as int), id@, prov)
            },
        decreases n - i,
    {
        let hit = str_equals(opts[i].id.as_str(), id) && match prov {
            None => true,
            Some(p) => opts[i].provider == p,
        };
        assert(opts@.skip(i as int)[0] == opts@[i as int]);
        if hit {
            return Some(i);
        }
        assert(opts@.skip(i as int).drop_first() =~= opts@.skip(i + 1));
        i = i + 1;
    }
    assert(opts@.skip(n as int) =~= Seq::<ModelOption>::empty());
    None
}

/// The provider an id resolves to when the recorded provider does not offer
/// it: the only provider among `opts` that offers it, or, when both do, the
/// OpenAI-compatible one if the provider URL `url` is set and OpenRouter
/// otherwise.
pub open spec fn resolved_provider_of(opts: Seq<ModelOption>, id: Seq<char>, url: Seq<char>) -> Option<
    LlmProvider,
> {
    let has_or = first_option(opts, id, Some(LlmProvider::OpenRouter)) >= 0;
    let has_oai = first_option(opts, id, Some(LlmProvider::OpenAICompat)) >= 0;
    if has_or && has_oai {
        if trim_seq(url).len() == 0 {
            Some(LlmProvider::OpenRouter)
        } else {
            Some(LlmProvider::OpenAICompat)
        }
    } else if has_or {
        Some(LlmProvider::OpenRouter)
    } else if has_oai {
        Some(LlmProvider::OpenAICompat)
    } else {
        None
    }
}

/// The provider recorded for a selection once it is brought in line with the
/// options `opts`: kept when it offers the selected id, resolved otherwise, and
/// none when nothing is selected.
pub open spec fn synced_provider_of(
    opts: Seq<ModelOption>,
    selected: Option<String>,
    provider: Option<LlmProvider>,
    url: Seq<char>,
) -> Option<LlmProvider> {
    match selected {
        None => None,
        Some(id) => {
            if provider is Some && first_option(opts, id@, provider) >= 0 {
                provider
            } else {
                resolved_provider_of(opts, id@, url)
            }
        },
    }
}

/// The provider recorded for the selection once it is brought in line with the
/// options.
pub open spec fn synced_provider(app: App) -> Option<LlmProvider> {
    synced_provider_of(
        app.model_options@,
        app.selected_model,
        app.selected_model_provider,
        app.tabby_url_input@,
    )
}

/// What the credential store held when a request was prepared.
pub struct StoredCredentials {
    /// The OpenRouter API key, or the store's error.
    pub api_key: Result<String, String>,
    /// The stored OpenAI-compatible provider base URL.
    pub tabby_base_url: Option<String>,
    /// The stored OpenAI-compatible provider token.
    pub tabby_token: Option<String>,
}

/// Whether `s` holds more than white space.
pub open spec fn nonblank(s: Seq<char>) -> bool {
    trim_seq(s).len() > 0
}

/// `s` without the `/` characters that end it.
pub open spec fn trim_trailing_slashes(s: Seq<char>) -> Seq<char>
    decreases s.len(),
{
    if s.len() > 0 && s.last() == '/' {
        trim_trailing_slashes(s.drop_last())
    } else {
        s
    }
}

/// What `trim_trailing_slashes` leaves is a prefix of its argument that does
/// not end with `/`.
pub proof fn lemma_trim_slashes_prefix(s: Seq<char>)
    ensures
        trim_trailing_slashes(s).len() <= s.len(),
        trim_trailing_slashes(s) == s.take(trim_trailing_slashes(s).len() as int),
        trim_trailing_slashes(s).len() > 0 ==> trim_trailing_slashes(s).last() != '/',
    decreases s.len(),
{
    if s.len() > 0 && s.last() == '/' {
        lemma_trim_slashes_prefix(s.drop_last());
        let r = trim_trailing_slashes(s.drop_last());
        assert(s.drop_last().take(r.len() as int) =~= s.take(r.len() as int));
    } else {
        assert(s.take(s.len() as int) =~= s);
    }
}

/// The chat API base of an OpenAI-compatible provider at `base`: the trimmed
/// URL without trailing `/`, with `/v1` added unless it already ends so.
pub open spec fn chat_base_url(base: Seq<char>) -> Seq<char> {
    let t = trim_trailing_slashes(trim_seq(base));
    if "/v1"@.is_suffix_of(t) {
        t
    } else {
        t + "/v1"@
    }
}

/// The chat API base of an OpenAI-compatible provider at `base`.
pub fn chat_base(base: &str) -> (r: String)
    ensures
        r@ == chat_base_url(base@),
{
    let t = trim(base);
    let mut hi = t.unicode_len();
    assert(t@.take(hi as int) =~= t@);
    while hi > 0 && t.get_char(hi - 1) == '/'
        invariant
            hi <= t@.len(),
            trim_trailing_slashes(t@) == trim_trailing_slashes(t@.take(hi as int)),
        decreases hi,
    {
        assert(t@.take(hi as int).drop_last() =~= t@.take(hi - 1));
        hi = hi - 1;
    }
    let head = t.substring_char(0, hi);
    assert(head@ =~= t@.take(hi as int));
    let mut out = String::from_str(head);
    if !ends_with(head, "/v1") {
        out.append("/v1");
    }
    out
}

/// The provider text `input` when it is not blank, otherwise the stored value
/// when that is not blank.
pub open spec fn live_or_stored(input: Seq<char>, stored: Option<String>) -> Option<Seq<char>> {
    if nonblank(input) {
        Some(input)
    } else {
        match stored {
            Some(v) => if nonblank(v@) {
                Some(v@)
            } else {
                None
            },
            None => None,
        }
    }
}

fn live_or_stored_of(input: &String, stored: &Option<String>) -> (r: Option<String>)
    ensures
        match r {
            Some(v) => live_or_stored(input@, *stored) == Some(v@),
            None => live_or_stored(input@, *stored) is None,
        },
{
    if trim(input.as_str()).unicode_len() > 0 {
        Some(input.clone())
    } else {
        match stored {
            Some(v) => if trim(v.as_str()).unicode_len() > 0 {
                Some(v.clone())
            } else {
                None
            },
            None => None,
        }
    }
}

/// Where a chat request for the selection goes, and with which credential.
pub open spec fn provider_route(app: App, stored: StoredCredentials) -> Result<
    (Seq<char>, Option<Seq<char>>),
    Seq<char>,
> {
    match app.selected_model {
        None => Err("모델 미선택"@),
        Some(id) => {
            let k = selected_index(app);
            if k < 0 {
                Err("선택된 모델을 찾을 수 없습니다: "@ + id@)
            } else if app.model_options@[k].provider == LlmProvider::OpenRouter {
                match stored.api_key {
                    Ok(key) => Ok((openrouter_base_url(), Some(key@))),
                    Err(e) => Err(e@),
                }
            } else {
                match live_or_stored(app.tabby_url_input@, stored.tabby_base_url) {
                    None => Err("Tabby URL 미설정"@),
                    Some(base) => Ok(
                        (
                            chat_base_url(base),
                            live_or_stored(app.tabby_token_input@, stored.tabby_token),
                        ),
                    ),
                }
            }
        },
    }
}

impl App {
    /// The base URL and credential a chat request for the selection is sent
    /// with; the text inputs of the provider settings take precedence over what
    /// is stored.
    pub fn resolve_provider(&self, stored: &StoredCredentials) -> (r: Result<
        (String, Option<String>),
        String,
    >)
        ensures
            match r {
                Ok((base, key)) => provider_route(*self, *stored) == Ok::<
                    (Seq<char>, Option<Seq<char>>),
                    Seq<char>,
                >((base@, opt_view(key))),
                Err(e) => provider_route(*self, *stored) == Err::<
                    (Seq<char>, Option<Seq<char>>),
                    Seq<char>,
                >(e@),
            },
    {
        let id = match &self.selected_model {
            None => return Err(String::from_str("모델 미선택")),
            Some(id) => id,
        };
        let provider = match self.selected_option() {
            Some(o) => o.provider,
            None => {
                let mut m = String::from_str("선택된 모델을 찾을 수 없습니다: ");
                m.append(id.as_str());
                return Err(m);
            },
        };
        match provider {
            LlmProvider::OpenRouter => match &stored.api_key {
                Ok(key) => Ok((String::from_str("https://openrouter.ai/api/v1"), Some(key.clone()))),
                Err(e) => Err(e.clone()),
            },
            LlmProvider::OpenAICompat => {
                let base = match live_or_stored_of(&self.tabby_url_input, &stored.tabby_base_url) {
                    None => return Err(String::from_str("Tabby URL 미설정")),
                    Some(b) => b,
                };
                let token = live_or_stored_of(&self.tabby_token_input, &stored.tabby_token);
                let r = (chat_base(base.as_str()), token);
                assert(opt_view(r.1) == live_or_stored(
                    self.tabby_token_input@,
                    stored.tabby_token,
                ));
                Ok(r)
            },
        }
    }

    /// The option the chat sends to.
    pub fn selected_option(&self) -> (r: Option<&ModelOption>)
        ensures
            match r {
                Some(o) => 0 <= selected_index(*self) < self.model_options@.len() && *o
                    == self.model_options@[selected_index(*self)],
                None => selected_index(*self) == -1,
            },
    {
        let id = match &self.selected_model {
            None => return None,
            Some(id) => id,
        };
        proof {
            lemma_first_option(self.model_options@, id@, None);
            lemma_first_option(self.model_options@, id@, self.selected_model_provider);
        }
        if self.selected_model_provider.is_some() {
            if let Some(i) = find_option(&self.model_options, id.as_str(), self.selected_model_provider) {
                return Some(&self.model_options[i]);
            }
        }
        match find_option(&self.model_options, id.as_str(), None) {
            Some(i) => Some(&self.model_options[i]),
            None => None,
        }
    }

    /// The provider of the option the chat sends to.
    pub fn selected_provider(&self) -> (r: Option<LlmProvider>)
        ensures
            match r {
                Some(p) => selected_index(*self) >= 0 && p == self.model_options@[selected_index(
                    *self,
                )].provider,
                None => selected_index(*self) == -1,
            },
    {
        match self.selected_option() {
            Some(o) => Some(o.provider),
            None => None,
        }
    }

    /// Whether the selected model is sent tool definitions: only OpenRouter
    /// models are.
    pub fn selected_model_supports_tools(&self) -> (r: bool)
        ensures
            r == (selected_index(*self) >= 0 && self.model_options@[selected_index(*self)].provider
                == LlmProvider::OpenRouter),
    {
        match self.selected_provider() {
            Some(LlmProvider::OpenRouter) => true,
            _ => false,
        }
    }

    /// Whether some option has the selected id.
    pub fn selected_model_exists_in_options(&self) -> (r: bool)
        ensures
            r == (self.selected_model is Some && first_option(
                self.model_options@,
                self.selected_model->0@,
                None,
            ) >= 0),
    {
        match &self.selected_model {
            None => false,
            Some(id) => find_option(&self.model_options, id.as_str(), None).is_some(),
        }
    }

    /// Brings the recorded provider of the selection in line with the options.
    pub fn sync_selected_model_provider(&mut self)
        ensures
            *final(self) == (App { selected_model_provider: synced_provider(*old(self)), ..*old(self) }),
    {
        let provider = match &self.selected_model {
            None => None,
            Some(id) => {
                let keep = match self.selected_model_provider {
                    Some(p) => find_option(&self.model_options, id.as_str(), Some(p)).is_some(),
                    None => false,
                };
                if keep {
                    self.selected_model_provider
                } else {
                    let has_or = find_option(
                        &self.model_options,
                        id.as_str(),
                        Some(LlmProvider::OpenRouter),
                    ).is_some();
                    let has_oai = find_option(
                        &self.model_options,
                        id.as_str(),
                        Some(LlmProvider::OpenAICompat),
                    ).is_some();
                    if has_or && has_oai {
                        if trim(self.tabby_url_input.as_str()).unicode_len() == 0 {
                            Some(LlmProvider::OpenRouter)
                        } else {
                            Some(LlmProvider::OpenAICompat)
                        }
                    } else if has_or {
                        Some(LlmProvider::OpenRouter)
                    } else if has_oai {
                        Some(LlmProvider::OpenAICompat)
                    } else {
                        None
                    }
                }
            },
        };
        self.selected_model_provider = provider;
    }
}

} // verus!
