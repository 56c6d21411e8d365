//! Downloading a model repository from Hugging Face into the model directory,
//! and running the downloaded model with TabbyAPI.
use crate::engine::tabbyapi_adopted;
use crate::model::{copy_string, Effect};
use crate::paths::{join, join_path};
use crate::state::{App, HfState};
use crate::text::{push_char, trim, trim_seq};
use vstd::prelude::*;

verus! {

/// The progress of a model download.
pub struct HfDownload {
    pub folder_name: String,
    pub total_files: usize,
    pub file_idx: usize,
    pub file_name: String,
    pub file_bytes_done: u64,
    pub file_bytes_total: Option<u64>,
}

/// An event of a model download.
pub enum DownloadEvent {
    Started { total_files: usize },
    FileStart { idx: usize, name: String, size: Option<u64> },
    FileProgress { idx: usize, bytes_done: u64, bytes_total: Option<u64> },
    FileDone,
    AllDone,
    Error(String),
}

/// A download to start: repository `repo` into directory `dir`, folder
/// `folder_name`, with the access token and revision given.
pub struct HfDownloadRequest {
    pub repo: String,
    pub dir: String,
    pub token: Option<String>,
    pub revision: Option<String>,
    pub folder_name: String,
}

/// What a download event asks the surrounding program to do.
pub enum DownloadStep {
    /// Nothing.
    Nothing,
    /// The download into `model_path`, folder `folder_name`, is complete: find
    /// the TabbyAPI model folder in it and the TabbyAPI launcher, then report
    /// them.
    Finished { folder_name: String, model_path: String },
}

/// The folder a repository is downloaded to when no preset names one: its id
/// with each `/` written `--`.
pub open spec fn folder_of_repo(repo: Seq<char>) -> Seq<char>
    decreases repo.len(),
{
    if repo.len() == 0 {
        Seq::empty()
    } else {
        folder_of_repo(repo.drop_last()) + if repo.last() == '/' {
            "--"@
        } else {
            seq![repo.last()]
        }
    }
}

fn folder_name_for(repo: &str) -> (r: String)
    ensures
        r@ == folder_of_repo(repo@),
{
    let mut out = String::new();
    let n = repo.unicode_len();
    let mut i: usize = 0;
    proof {
        reveal_strlit("--");
    }
    while i < n
        invariant
            n == repo@.len(),
            i <= n,
            out@ == folder_of_repo(repo@.take(i as int)),
        decreases n - i,
    {
        let c = repo.get_char(i);
        proof {
            assert(repo@.take(i + 1).drop_last() =~= repo@.take(i as int));
            assert(repo@.take(i + 1).last() == c);
        }
        if c == '/' {
            out.append("--");
        } else {
            let ghost before = out@;
            push_char(&mut out, c);
            assert(out@ =~= before + seq![c]);
        }
        i = i + 1;
    }
    assert(repo@.take(n as int) =~= repo@);
    out
}

/// Whether a download can start in `o`: none is in progress and a repository
/// is named.
pub open spec fn download_ready(o: App) -> bool {
    o.hf.dl is None && trim_seq(o.hf.repo_input@).len() > 0
}

/// The text of the token input when it has more than white space.
pub open spec fn typed_token(o: App) -> Option<Seq<char>> {
    if trim_seq(o.hf.token_input@).len() > 0 {
        Some(trim_seq(o.hf.token_input@))
    } else {
        None
    }
}

impl App {
    /// Checks whether a download can start. With one in progress, or no
    /// repository named, the status says so and `None` comes back; otherwise
    /// the handle of an earlier download is released and the typed model
    /// directory, trimmed, is returned (empty when none is typed, in which case
    /// the default directory is used). The caller expands and creates the
    /// directory, then calls `start_hf_download`.
    pub fn prepare_hf_download(&mut self) -> (r: Option<String>)
        ensures
            ({
                let o = *old(self);
                let f = *final(self);
                &&& o.hf.dl is Some ==> {
                    &&& r is None
                    &&& f.status@ == "이미 다운로드가 진행 중입니다."@
                    &&& f == (App { status: f.status, ..o })
                }
                &&& o.hf.dl is None && trim_seq(o.hf.repo_input@).len() == 0 ==> {
                    &&& r is None
                    &&& f.status@ == "HF repo ID 비어있음"@
                    &&& f == (App { status: f.status, hf: HfState { abort_handle: false, ..o.hf }, ..o })
                }
                &&& download_ready(o) ==> {
                    &&& r matches Some(d) && d@ == trim_seq(o.model_dir_input@)
                    &&& f == (App { hf: HfState { abort_handle: false, ..o.hf }, ..o })
                }
            }),
    {
        if self.hf.dl.is_some() {
            self.status = String::from_str("이미 다운로드가 진행 중입니다.");
            return None;
        }
        self.hf.abort_handle = false;
        if trim(self.hf.repo_input.as_str()).unicode_len() == 0 {
            self.status = String::from_str("HF repo ID 비어있음");
            return None;
        }
        Some(String::from_str(trim(self.model_dir_input.as_str())))
    }

    /// Starts the download once its directory `dir` (expanded) was created,
    /// or reports that creating it failed with `created`'s error. The
    /// directory becomes the model directory and is stored; the typed token,
    /// else `stored_token`, authorises the download; the folder and revision a
    /// preset chose are used once, the folder defaulting to the repository id
    /// with each `/` written `--`.
    pub fn start_hf_download(
        &mut self,
        dir: String,
        created: Result<(), String>,
        stored_token: Option<String>,
    ) -> (r: (Option<HfDownloadRequest>, Vec<Effect>))
        requires
            download_ready(*old(self)),
        ensures
            ({
                let o = *old(self);
                let f = *final(self);
                let repo = trim_seq(o.hf.repo_input@);
                match created {
                    Err(e) => {
                        &&& r.0 is None
                        &&& r.1@.len() == 0
                        &&& f.model_dir_input == dir
                        &&& f.status@ == "다운로드 경로 생성 실패 ("@ + dir@ + "): "@ + e@
                        &&& f == (App { model_dir_input: f.model_dir_input, status: f.status, ..o })
                    },
                    Ok(_) => {
                        let folder = match o.hf.folder_name {
                            Some(n) => n@,
                            None => folder_of_repo(repo),
                        };
                        &&& r.0 matches Some(req) && {
                            &&& req.repo@ == repo
                            &&& req.dir == dir
                            &&& opt_seq(req.token) == match typed_token(o) {
                                Some(t) => Some(t),
                                None => opt_seq(stored_token),
                            }
                            &&& req.revision == o.hf.revision
                            &&& req.folder_name@ == folder
                        }
                        &&& r.1@.len() == 1
                        &&& r.1@[0] matches Effect::PersistModelDir(d) && d == dir
                        &&& f.model_dir_input == dir
                        &&& f.hf.dl matches Some(dl) && {
                            &&& dl.folder_name@ == folder
                            &&& dl.total_files == 0
                            &&& dl.file_idx == 0
                            &&& dl.file_name@.len() == 0
                            &&& dl.file_bytes_done == 0
                            &&& dl.file_bytes_total is None
                        }
                        &&& f.status@ == "다운로드 시작: "@ + repo
                        &&& f == (App {
                            model_dir_input: f.model_dir_input,
                            hf: HfState {
                                dl: f.hf.dl,
                                folder_name: None,
                                revision: None,
                                abort_handle: true,
                                ..o.hf
                            },
                            status: f.status,
                            ..o
                        })
                    },
                }
            }),
    {
        self.model_dir_input = copy_string(&dir);
        if let Err(e) = created {
            let mut st = String::from_str("다운로드 경로 생성 실패 (");
            st.append(dir.as_str());
            st.append("): ");
            st.append(e.as_str());
            self.status = st;
            return (None, Vec::new());
        }
        let mut effects: Vec<Effect> = Vec::new();
        effects.push(Effect::PersistModelDir(copy_string(&dir)));
        let repo = String::from_str(trim(self.hf.repo_input.as_str()));
        let typed = trim(self.hf.token_input.as_str());
        let token = if typed.unicode_len() > 0 {
            Some(String::from_str(typed))
        } else {
            stored_token
        };
        let folder_name = match self.hf.folder_name.take() {
            Some(n) => n,
            None => folder_name_for(repo.as_str()),
        };
        let revision = self.hf.revision.take();
        self.hf.dl = Some(
            HfDownload {
                folder_name: copy_string(&folder_name),
                total_files: 0,
                file_idx: 0,
                file_name: String::new(),
                file_bytes_done: 0,
                file_bytes_total: None,
            },
        );
        let mut st = String::from_str("다운로드 시작: ");
        st.append(repo.as_str());
        self.status = st;
        self.hf.abort_handle = true;
        (Some(HfDownloadRequest { repo, dir, token, revision, folder_name }), effects)
    }

    /// Takes in event `ev` of the download in progress; without one nothing
    /// changes. Progress events update it; a failure ends it and is reported;
    /// completion hands back the folder and its path in the model directory.
    pub fn on_hf_download_event(&mut self, ev: DownloadEvent) -> (r: DownloadStep)
        ensures
            ({
                let o = *old(self);
                let f = *final(self);
                match o.hf.dl {
                    None => r is Nothing && f == o,
                    Some(dl) => match ev {
                        DownloadEvent::Started { total_files } => {
                            &&& r is Nothing
                            &&& f == (App { hf: HfState { dl: Some(HfDownload { total_files, ..dl }), ..o.hf }, ..o })
                        },
                        DownloadEvent::FileStart { idx, name, size } => {
                            &&& r is Nothing
                            &&& f == (App {
                                hf: HfState {
                                    dl: Some(
                                        HfDownload {
                                            file_idx: idx,
                                            file_name: name,
                                            file_bytes_done: 0,
                                            file_bytes_total: size,
                                            ..dl
                                        },
                                    ),
                                    ..o.hf
                                },
                                ..o
                            })
                        },
                        DownloadEvent::FileProgress { idx, bytes_done, bytes_total } => {
                            &&& r is Nothing
                            &&& f == (App {
                                hf: HfState {
                                    dl: Some(
                                        HfDownload {
                                            file_idx: idx,
                                            file_bytes_done: bytes_done,
                                            file_bytes_total: bytes_total,
                                            ..dl
                                        },
                                    ),
                                    ..o.hf
                                },
                                ..o
                            })
                        },
                        DownloadEvent::FileDone => r is Nothing && f == o,
                        DownloadEvent::AllDone => {
                            &&& r matches DownloadStep::Finished { folder_name, model_path }
                                && folder_name == dl.folder_name && model_path@ == join_path(
                                o.platform,
                                o.model_dir_input@,
                                dl.folder_name@,
                            )
                            &&& f == o
                        },
                        DownloadEvent::Error(e) => {
                            &&& r is Nothing
                            &&& f.status@ == "다운로드 실패: "@ + e@
                            &&& f == (App {
                                status: f.status,
                                hf: HfState { dl: None, abort_handle: false, ..o.hf },
                                ..o
                            })
                        },
                    },
                }
            }),
    {
        let mut dl = match self.hf.dl.take() {
            Some(d) => d,
            None => {
                return DownloadStep::Nothing;
            },
        };
        match ev {
            DownloadEvent::Started { total_files } => {
                dl.total_files = total_files;
                self.hf.dl = Some(dl);
                DownloadStep::Nothing
            },
            DownloadEvent::FileStart { idx, name, size } => {
                dl.file_idx = idx;
                dl.file_name = name;
                dl.file_bytes_done = 0;
                dl.file_bytes_total = size;
                self.hf.dl = Some(dl);
                DownloadStep::Nothing
            },
            DownloadEvent::FileProgress { idx, bytes_done, bytes_total } => {
                dl.file_idx = idx;
                dl.file_bytes_done = bytes_done;
                dl.file_bytes_total = bytes_total;
                self.hf.dl = Some(dl);
                DownloadStep::Nothing
            },
            DownloadEvent::FileDone => {
                self.hf.dl = Some(dl);
                DownloadStep::Nothing
            },
            DownloadEvent::AllDone => {
                let folder_name = copy_string(&dl.folder_name);
                let model_path = join(
                    self.platform,
                    self.model_dir_input.as_str(),
                    dl.folder_name.as_str(),
                );
                self.hf.dl = Some(dl);
                DownloadStep::Finished { folder_name, model_path }
            },
            DownloadEvent::Error(e) => {
                let mut st = String::from_str("다운로드 실패: ");
                st.append(e.as_str());
                self.status = st;
                self.hf.abort_handle = false;
                DownloadStep::Nothing
            },
        }
    }

    /// Runs the completed download of folder `folder_name` at `model_path`
    /// with TabbyAPI: `resolved` is the TabbyAPI model folder found there
    /// (none when it holds no usable model) and `launcher` the TabbyAPI
    /// launcher found in the default runtime directory. Either way the
    /// download is over; the model is adopted (see `tabbyapi_adopted`), or the
    /// reason it cannot be is reported.
    pub fn on_hf_download_finished(
        &mut self,
        folder_name: &str,
        model_path: &str,
        resolved: Option<String>,
        launcher: Option<String>,
    ) -> (effects: Vec<Effect>)
        ensures
            ({
                let o = *old(self);
                let f = *final(self);
                let ended = App { hf: HfState { dl: None, abort_handle: false, ..o.hf }, ..o };
                match resolved {
                    None => {
                        &&& effects@.len() == 0
                        &&& f.status@ == "다운로드 결과에서 TabbyAPI 모델 경로를 확정할 수 없습니다: "@
                            + model_path@
                            + " (config.json+가중치 파일이 필요하며, 여러 하위 모델이면 폴더 이름에 bpw 힌트가 필요합니다.)"@
                        &&& f.tabby_status matches Some(Err(m)) && m@ == f.status@
                        &&& f == (App { status: f.status, tabby_status: f.tabby_status, ..ended })
                    },
                    Some(m) => {
                        &&& tabbyapi_adopted(ended, App { status: o.status, ..f }, m, launcher, effects@)
                        &&& f.status@ == "다운로드 완료: "@ + folder_name@
                            + " — Runtime에서 시작을 누른 뒤 연결 테스트"@
                    },
                }
            }),
    {
        self.hf.dl = None;
        self.hf.abort_handle = false;
        let m = match resolved {
            None => {
                let mut st = String::from_str("다운로드 결과에서 TabbyAPI 모델 경로를 확정할 수 없습니다: ");
                st.append(model_path);
                st.append(
                    " (config.json+가중치 파일이 필요하며, 여러 하위 모델이면 폴더 이름에 bpw 힌트가 필요합니다.)",
                );
                self.status = copy_string(&st);
                self.tabby_status = Some(Err(st));
                return Vec::new();
            },
            Some(m) => m,
        };
        let effects = self.adopt_tabbyapi_model(m, launcher);
        let mut st = String::from_str("다운로드 완료: ");
        st.append(folder_name);
        st.append(" — Runtime에서 시작을 누른 뒤 연결 테스트");
        self.status = st;
        effects
    }

    /// Cancels the download: its handle is released and the download is over.
    pub fn cancel_hf_download(&mut self)
        ensures
            final(self).status@ == "다운로드 취소됨"@,
            *final(self) == (App {
                hf: HfState { dl: None, abort_handle: false, ..old(self).hf },
                status: final(self).status,
                ..*old(self)
            }),
    {
        self.hf.abort_handle = false;
        self.hf.dl = None;
        self.status = String::from_str("다운로드 취소됨");
    }
}

impl App {
    /// Takes the typed Hugging Face access token.
    pub fn set_hf_token_input(&mut self, value: String)
        ensures
            *final(self) == (App { hf: HfState { token_input: value, ..old(self).hf }, ..*old(self) }),
    {
        self.hf.token_input = value;
    }

    /// Takes the typed repository id.
    pub fn set_hf_repo_input(&mut self, value: String)
        ensures
            *final(self) == (App { hf: HfState { repo_input: value, ..old(self).hf }, ..*old(self) }),
    {
        self.hf.repo_input = value;
    }

    /// The typed token, to be stored.
    pub fn save_hf_token(&self) -> (r: String)
        ensures
            r == self.hf.token_input,
    {
        self.hf.token_input.clone()
    }

    /// Reports whether the token was stored.
    pub fn on_hf_token_saved(&mut self, result: Result<(), String>)
        ensures
            match result {
                Ok(()) => final(self).status@ == "HF 토큰 저장됨"@,
                Err(e) => final(self).status@ == "HF 토큰 저장 실패: "@ + e@,
            },
            *final(self) == (App { status: final(self).status, ..*old(self) }),
    {
        match result {
            Ok(()) => {
                self.status = String::from_str("HF 토큰 저장됨");
            },
            Err(e) => {
                let mut st = String::from_str("HF 토큰 저장 실패: ");
                st.append(e.as_str());
                self.status = st;
            },
        }
    }
}

/// The text of `o`, if any.
pub open spec fn opt_seq(o: Option<String>) -> Option<Seq<char>> {
    match o {
        Some(s) => Some(s@),
        None => None,
    }
}

} // verus!
