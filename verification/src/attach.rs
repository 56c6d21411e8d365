//! Choosing files to attach to the next message: from the file picker, by
//! dropping them on the window, or from the @-mention list.
use crate::mention::{fuzzy_match_paths, fuzzy_matches, views};
use crate::model::copy_string;
use crate::paths::{join, join_path};
use crate::state::App;
use crate::text::{last_index_of, rfind_char};
use crate::workspace::{attached, attached_bytes};
use vstd::prelude::*;

verus! {

/// A file to read for attaching: the path it is read from, the path it is
/// attached under, and the bytes attached already. Once read, its size is
/// checked against the limit (see `check_attachment`).
pub struct AttachmentRead {
    pub read_path: String,
    pub attach_as: String,
    pub existing: u64,
}

/// Whether `f` and `r` are the outcome, from `o`, of asking to attach `path`,
/// to be read from `read_path`: a file attached already is reported and not
/// read again; otherwise it is to be read, `o` unchanged.
pub open spec fn attach_requested(
    o: App,
    f: App,
    path: Seq<char>,
    read_path: Seq<char>,
    r: Option<AttachmentRead>,
) -> bool {
    &&& attached(o, path) ==> {
        &&& r is None
        &&& f.status@ == "Already attached: "@ + path
        &&& f == (App { status: f.status, ..o })
    }
    &&& !attached(o, path) ==> {
        &&& r matches Some(q) && q.read_path@ == read_path && q.attach_as@ == path && q.existing
            == attached_bytes(o.attached_files@)
        &&& f == o
    }
}

/// The input with the text from its last `@` on removed, when it has one.
pub open spec fn before_last_at(input: Seq<char>) -> Seq<char> {
    let k = last_index_of(input, '@');
    if k >= 0 {
        input.take(k)
    } else {
        input
    }
}

impl App {
    fn request_attachment(&mut self, path: String, read_path: String) -> (r: Option<AttachmentRead>)
        requires
            attached_bytes(old(self).attached_files@) <= u64::MAX,
        ensures
            attach_requested(*old(self), *final(self), path@, read_path@, r),
    {
        if self.is_already_attached(path.as_str()) {
            let mut st = String::from_str("Already attached: ");
            st.append(path.as_str());
            self.status = st;
            return None;
        }
        let existing = self.total_attached_bytes();
        Some(AttachmentRead { read_path, attach_as: path, existing })
    }

    /// Takes the file the picker returned, if any (see `attach_requested`).
    pub fn on_attachment_picked(&mut self, picked: Option<String>) -> (r: Option<AttachmentRead>)
        requires
            attached_bytes(old(self).attached_files@) <= u64::MAX,
        ensures
            match picked {
                None => r is None && *final(self) == *old(self),
                Some(p) => attach_requested(*old(self), *final(self), p@, p@, r),
            },
    {
        match picked {
            None => None,
            Some(p) => {
                let read_path = copy_string(&p);
                self.request_attachment(p, read_path)
            },
        }
    }

    /// Takes a file dropped on the window (see `attach_requested`).
    pub fn on_file_dropped(&mut self, path: String) -> (r: Option<AttachmentRead>)
        requires
            attached_bytes(old(self).attached_files@) <= u64::MAX,
        ensures
            attach_requested(*old(self), *final(self), path@, path@, r),
    {
        let read_path = copy_string(&path);
        self.request_attachment(path, read_path)
    }

    /// Takes the highlighted entry of the @-mention list, when the list is
    /// open and has it: the `@` query is cut from the input, the list closes,
    /// and the workspace file is asked for (see `attach_requested`), read from
    /// the workspace and attached under its workspace path.
    pub fn confirm_mention(&mut self) -> (r: Option<AttachmentRead>)
        requires
            attached_bytes(old(self).attached_files@) <= u64::MAX,
        ensures
            ({
                let o = *old(self);
                let f = *final(self);
                let list = fuzzy_matches(views(o.mention_candidates@), o.mention_query@, 8);
                &&& (!o.show_mention || o.mention_selected >= list.len()) ==> r is None && f == o
                &&& o.show_mention && o.mention_selected < list.len() ==> {
                    let chosen = list[o.mention_selected as int];
                    let closed = App {
                        input: f.input,
                        show_mention: false,
                        mention_query: f.mention_query,
                        mention_selected: 0,
                        ..o
                    };
                    &&& f.input@ == before_last_at(o.input@)
                    &&& f.mention_query@.len() == 0
                    &&& attach_requested(
                        closed,
                        f,
                        chosen,
                        join_path(o.platform, o.cwd@, chosen),
                        r,
                    )
                }
            }),
    {
        if !self.show_mention {
            return None;
        }
        let filtered = fuzzy_match_paths(&self.mention_candidates, self.mention_query.as_str(), 8);
        if self.mention_selected >= filtered.len() {
            return None;
        }
        let chosen = copy_string(&filtered[self.mention_selected]);
        proof {
            assert(chosen@ == views(filtered@)[self.mention_selected as int]);
        }
        if let Some(at_pos) = rfind_char(self.input.as_str(), '@') {
            self.input = String::from_str(self.input.as_str().substring_char(0, at_pos));
        }
        self.close_mention();
        let read_path = join(self.platform, self.cwd.as_str(), chosen.as_str());
        self.request_attachment(chosen, read_path)
    }
}

} // verus!
