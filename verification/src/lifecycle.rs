//! The events of the owned inference runtime process: its log lines, its exit,
//! and the request to stop it.
use crate::inference::{capped_log, favorites_synced, without_provider, INFERENCE_LOG_CAP};
use crate::mention::views;
use crate::model::{copy_string, LlmProvider};
use crate::provider::remove_provider_options;
use crate::selection::synced_provider_of;
use crate::seqs::{last_where, lemma_last_where_is, lemma_last_where_none};
use crate::state::{next_generation, App, InferenceProcess};
use crate::text::{
    dec, decimal, find_char, first_index_of, parse_u32, parse_u32_spec, sdec, signed_decimal,
    starts_with, trim, trim_seq,
};
use vstd::prelude::*;

verus! {

/// The process id a log line announces: `[pid:`, then digits (white space
/// around them allowed) up to the first `]`.
pub open spec fn pid_in_line(line: Seq<char>) -> Option<u32> {
    if "[pid:"@.is_prefix_of(line) {
        let rest = line.skip("[pid:"@.len() as int);
        let k = first_index_of(rest, ']');
        let head = if k >= 0 {
            rest.take(k)
        } else {
            rest
        };
        parse_u32_spec(trim_seq(head))
    } else {
        None
    }
}

/// What a spawn-failure log line reports: the line after its
/// `[spawn 실패] ` prefix.
pub open spec fn spawn_failure_detail(l: Seq<char>) -> Seq<char> {
    l.skip("[spawn 실패] "@.len() as int)
}

/// Whether a log line reports a failure.
pub open spec fn is_error_line() -> spec_fn(String) -> bool {
    |l: String| "[spawn 실패]"@.is_prefix_of(l@) || "[err]"@.is_prefix_of(l@)
}

/// The newest failure line of `log`, if any.
pub open spec fn last_error_line(log: Seq<String>) -> Option<Seq<char>> {
    let k = last_where(log, is_error_line());
    if k >= 0 {
        Some(log[k]@)
    } else {
        None
    }
}

/// The status after the runtime exited with `code`, `last` being the newest
/// failure line of its log: a failed start shows the spawn failure it logged,
/// a failing exit the failure line beside the code.
pub open spec fn exit_status(code: i32, last: Option<Seq<char>>) -> Seq<char> {
    let plain = "inference 서버 종료 (exit "@ + sdec(code as int) + ")"@;
    if code == -1 {
        match last {
            Some(l) => if "[spawn 실패] "@.is_prefix_of(l) {
                spawn_failure_detail(l)
            } else {
                "inference 서버 시작 실패"@
            },
            None => "inference 서버 시작 실패"@,
        }
    } else if code == 0 {
        plain
    } else {
        match last {
            Some(l) => plain + " — "@ + l,
            None => plain,
        }
    }
}

fn pid_in(line: &str) -> (r: Option<u32>)
    ensures
        r == pid_in_line(line@),
{
    if !starts_with(line, "[pid:") {
        proof {
            reveal_strlit("[pid:");
        }
        return None;
    }
    proof {
        reveal_strlit("[pid:");
    }
    let n = line.unicode_len();
    let rest = line.substring_char(5, n);
    assert(rest@ =~= line@.skip(5));
    let head = match find_char(rest, ']') {
        Some(k) => rest.substring_char(0, k),
        None => rest,
    };
    assert(head@ =~= if first_index_of(rest@, ']') >= 0 {
        rest@.take(first_index_of(rest@, ']'))
    } else {
        rest@
    });
    parse_u32(trim(head))
}

fn last_error_of(log: &Vec<String>) -> (r: Option<String>)
    ensures
        opt_text(r) == last_error_line(log@),
{
    let mut i = log.len();
    while i > 0
        invariant
            i <= log@.len(),
            forall|j: int| i <= j < log@.len() ==> !is_error_line()(#[trigger] log@[j]),
        decreases i,
    {
        let l = log[i - 1].as_str();
        proof {
            reveal_strlit("[spawn 실패]");
            reveal_strlit("[err]");
        }
        if starts_with(l, "[spawn 실패]") || starts_with(l, "[err]") {
            proof {
                lemma_last_where_is(log@, is_error_line(), i - 1);
            }
            return Some(copy_string(&log[i - 1]));
        }
        i = i - 1;
    }
    proof {
        lemma_last_where_none(log@, is_error_line());
    }
    None
}

/// The text of `o`, if any.
pub open spec fn opt_text(o: Option<String>) -> Option<Seq<char>> {
    match o {
        Some(s) => Some(s@),
        None => None,
    }
}

impl App {
    /// Asks the runtime to stop, when a stop handle is held; `requested` is
    /// whether the handle accepted the request. Either way a pending provider
    /// retry is cancelled.
    pub fn stop_inference(&mut self, requested: bool)
        ensures
            ({
                let o = *old(self);
                let f = *final(self);
                let process = match o.inference_pid {
                    Some(pid) => "pid "@ + dec(pid as nat),
                    None => "starting process"@,
                };
                &&& f.tabby_connect_retry_left == 0
                &&& f.tabby_retry_generation == next_generation(o.tabby_retry_generation)
                &&& !o.inference_process.stop_handle ==> f == (App {
                    tabby_connect_retry_left: 0,
                    tabby_retry_generation: f.tabby_retry_generation,
                    ..o
                })
                &&& o.inference_process.stop_handle ==> {
                    &&& f.status@ == if requested {
                        "inference 서버 중지 중 ("@ + process + ")"@
                    } else {
                        "inference 서버 종료 요청 실패 ("@ + process + ")"@
                    }
                    &&& f == (App {
                        inference_process: InferenceProcess { stopping: true, ..o.inference_process },
                        status: f.status,
                        tabby_connect_retry_left: 0,
                        tabby_retry_generation: f.tabby_retry_generation,
                        ..o
                    })
                }
            }),
    {
        if self.inference_process.stop_handle {
            self.inference_process.stopping = true;
            let process = match self.inference_pid {
                Some(pid) => {
                    let mut p = String::from_str("pid ");
                    p.append(decimal(pid as u64).as_str());
                    p
                },
                None => String::from_str("starting process"),
            };
            let mut st = String::from_str(
                if requested {
                    "inference 서버 중지 중 ("
                } else {
                    "inference 서버 종료 요청 실패 ("
                },
            );
            st.append(process.as_str());
            st.append(")");
            self.status = st;
        }
        self.tabby_connect_retry_left = 0;
        self.tabby_retry_generation = self.tabby_retry_generation.saturating_add(1);
    }

    /// Takes log line `line` of the runtime of generation `generation`; a line
    /// of an earlier runtime changes nothing. A line announcing the process id
    /// records it, a spawn failure is reported, a ready line reports the
    /// endpoint, and the line joins the log.
    #[verifier::rlimit(40)]
    pub fn on_inference_log_line(&mut self, generation: u64, line: String)
        ensures
            ({
                let o = *old(self);
                let f = *final(self);
                let l = line@;
                let failure = "[spawn 실패] "@.is_prefix_of(l);
                let ready = "[ready] "@.is_prefix_of(l);
                &&& generation != o.inference_process.generation ==> f == o
                &&& generation == o.inference_process.generation ==> {
                    &&& f.inference_log@ == capped_log(o.inference_log@, line, INFERENCE_LOG_CAP as nat)
                    &&& f.inference_pid == match pid_in_line(l) {
                        Some(pid) => Some(pid),
                        None => o.inference_pid,
                    }
                    &&& failure ==> (f.tabby_status matches Some(Err(m)) && m@ == spawn_failure_detail(l))
                    &&& !failure ==> f.tabby_status == o.tabby_status
                    &&& ready ==> f.status@ == "inference 서버 시작됨: "@ + l.skip("[ready] "@.len() as int)
                    &&& !ready && failure ==> f.status@ == spawn_failure_detail(l)
                    &&& !ready && !failure ==> f.status == o.status
                    &&& f == (App {
                        inference_log: f.inference_log,
                        inference_pid: f.inference_pid,
                        tabby_status: f.tabby_status,
                        status: f.status,
                        ..o
                    })
                }
            }),
    {
        if generation != self.inference_process.generation {
            return;
        }
        if let Some(pid) = pid_in(line.as_str()) {
            self.inference_pid = Some(pid);
        }
        let n = line.as_str().unicode_len();
        proof {
            reveal_strlit("[spawn 실패] ");
            reveal_strlit("[ready] ");
        }
        if starts_with(line.as_str(), "[spawn 실패] ") {
            let detail = String::from_str(line.as_str().substring_char(11, n));
            self.status = copy_string(&detail);
            self.tabby_status = Some(Err(detail));
        }
        if starts_with(line.as_str(), "[ready] ") {
            let mut st = String::from_str("inference 서버 시작됨: ");
            st.append(line.as_str().substring_char(8, n));
            self.status = st;
        }
        self.push_inference_log(line);
    }

    /// Takes the exit, with `code`, of the runtime of generation `generation`;
    /// the exit of an earlier runtime changes nothing. The exit is logged, the
    /// process is forgotten, a provider retry is cancelled, the outcome is
    /// reported (see `exit_status`), and the OpenAI-compatible provider's
    /// models, which it served, are dropped from the selector.
    #[verifier::rlimit(30)]
    pub fn on_inference_exited(&mut self, generation: u64, code: i32)
        ensures
            ({
                let o = *old(self);
                let f = *final(self);
                let st = exit_status(code, last_error_line(o.inference_log@));
                let opts = without_provider(o.model_options@, LlmProvider::OpenAICompat);
                &&& generation != o.inference_process.generation ==> f == o
                &&& generation == o.inference_process.generation ==> {
                    &&& f.inference_log@.len() > 0
                    &&& f.inference_log@.last()@ == "[exited] code "@ + sdec(code as int)
                    &&& f.inference_log@ == capped_log(
                        o.inference_log@,
                        f.inference_log@.last(),
                        INFERENCE_LOG_CAP as nat,
                    )
                    &&& f.inference_pid is None
                    &&& f.tabby_connect_retry_left == 0
                    &&& f.tabby_retry_generation == next_generation(o.tabby_retry_generation)
                    &&& f.status@ == st
                    &&& f.tabby_status matches Some(Err(m)) && m@ == st
                    &&& favorites_synced(opts, f.model_options@, views(o.favorites@))
                    &&& f.selected_model_provider == synced_provider_of(
                        opts,
                        o.selected_model,
                        o.selected_model_provider,
                        o.tabby_url_input@,
                    )
                    &&& f == (App {
                        inference_log: f.inference_log,
                        inference_pid: None,
                        inference_process: InferenceProcess {
                            stop_handle: false,
                            stopping: false,
                            ..o.inference_process
                        },
                        tabby_connect_retry_left: 0,
                        tabby_retry_generation: f.tabby_retry_generation,
                        status: f.status,
                        tabby_status: f.tabby_status,
                        model_options: f.model_options,
                        selected_model_provider: f.selected_model_provider,
                        ..o
                    })
                }
            }),
    {
        if generation != self.inference_process.generation {
            return;
        }
        let last_error = last_error_of(&self.inference_log);
        let mut exited = String::from_str("[exited] code ");
        exited.append(signed_decimal(code).as_str());
        self.push_inference_log(exited);
        self.inference_pid = None;
        self.inference_process.stop_handle = false;
        self.inference_process.stopping = false;
        self.tabby_connect_retry_left = 0;
        self.tabby_retry_generation = self.tabby_retry_generation.saturating_add(1);
        let mut plain = String::from_str("inference 서버 종료 (exit ");
        plain.append(signed_decimal(code).as_str());
        plain.append(")");
        proof {
            reveal_strlit("[spawn 실패] ");
        }
        let st = if code == -1 {
            match last_error {
                Some(l) => if starts_with(l.as_str(), "[spawn 실패] ") {
                    let n = l.as_str().unicode_len();
                    String::from_str(l.as_str().substring_char(11, n))
                } else {
                    String::from_str("inference 서버 시작 실패")
                },
                None => String::from_str("inference 서버 시작 실패"),
            }
        } else if code == 0 {
            plain
        } else {
            match last_error {
                Some(l) => {
                    plain.append(" — ");
                    plain.append(l.as_str());
                    plain
                },
                None => plain,
            }
        };
        self.status = copy_string(&st);
        self.tabby_status = Some(Err(st));
        remove_provider_options(&mut self.model_options, LlmProvider::OpenAICompat);
        self.refresh_model_combo();
    }
}

} // verus!
