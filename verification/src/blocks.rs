//! Actions on single chat blocks: switching how a reply is shown, copying a
//! block, and following a link in a rendered reply.
use crate::chat::{block_index, block_position};
use crate::model::{body_text, Block, BlockBody, ViewMode};
use crate::state::App;
use crate::text::{lower_ascii, starts_with, to_ascii_lowercase};
use vstd::prelude::*;

verus! {

/// The other way of showing a block.
pub open spec fn flipped(m: ViewMode) -> ViewMode {
    match m {
        ViewMode::Rendered => ViewMode::Raw,
        ViewMode::Raw => ViewMode::Rendered,
    }
}

/// The text a copy of block `id` takes: the raw text streamed so far while it
/// streams, else the block's text; none without such a block.
pub open spec fn copied_text(app: App, id: u64) -> Option<Seq<char>> {
    if app.streaming_block_id == Some(id) && app.streaming_raw@.len() > 0 {
        Some(app.streaming_raw@)
    } else {
        let k = block_index(app.blocks@, id);
        if k >= 0 {
            Some(body_text(app.blocks@[k].body))
        } else {
            None
        }
    }
}

/// Whether a link may be opened: a `javascript:` link, in any letter case,
/// may not.
pub open spec fn link_allowed(url: Seq<char>) -> bool {
    !"javascript:"@.is_prefix_of(lower_ascii(url))
}

impl App {
    /// Switches the first block `id`, if any, between rendered and raw. When
    /// an assistant reply turns rendered, its text is returned to be parsed
    /// for display.
    pub fn toggle_block_view(&mut self, id: u64) -> (r: Option<String>)
        ensures
            ({
                let o = *old(self);
                let f = *final(self);
                let k = block_index(o.blocks@, id);
                &&& k < 0 ==> r is None && f == o
                &&& k >= 0 ==> {
                    let b = o.blocks@[k];
                    &&& f.blocks@ == o.blocks@.update(
                        k,
                        Block { view_mode: flipped(b.view_mode), ..b },
                    )
                    &&& f == (App { blocks: f.blocks, ..o })
                    &&& (b.view_mode == ViewMode::Raw && b.body is Assistant) ==> (r matches Some(t)
                        && t@ == body_text(b.body))
                    &&& !(b.view_mode == ViewMode::Raw && b.body is Assistant) ==> r is None
                }
            }),
    {
        proof {
            crate::seqs::lemma_first_where(self.blocks@, crate::chat::has_id(id));
        }
        let k = match block_position(&self.blocks, id) {
            Some(k) => k,
            None => {
                return None;
            },
        };
        let mut b = self.blocks.remove(k);
        let ghost removed = self.blocks@;
        let r = match b.view_mode {
            ViewMode::Rendered => {
                b.view_mode = ViewMode::Raw;
                None
            },
            ViewMode::Raw => {
                b.view_mode = ViewMode::Rendered;
                match &b.body {
                    BlockBody::Assistant(t) => Some(t.clone()),
                    _ => None,
                }
            },
        };
        self.blocks.insert(k, b);
        assert(self.blocks@ =~= old(self).blocks@.update(k as int, self.blocks@[k as int]));
        r
    }

    /// The text to copy for block `id` (see `copied_text`).
    pub fn copy_block(&self, id: u64) -> (r: Option<String>)
        ensures
            match r {
                Some(t) => copied_text(*self, id) == Some(t@),
                None => copied_text(*self, id) is None,
            },
    {
        if self.streaming_block_id == Some(id) && self.streaming_raw.as_str().unicode_len() > 0 {
            return Some(self.streaming_raw.clone());
        }
        proof {
            crate::seqs::lemma_first_where(self.blocks@, crate::chat::has_id(id));
        }
        match block_position(&self.blocks, id) {
            Some(k) => Some(self.blocks[k].body.to_text()),
            None => None,
        }
    }

    /// Decides whether the link `url` may be opened; a blocked one is
    /// reported.
    pub fn check_link(&mut self, url: &str) -> (r: bool)
        ensures
            r == link_allowed(url@),
            r ==> *final(self) == *old(self),
            !r ==> final(self).status@ == "차단된 링크 스킴입니다."@ && *final(self) == (App {
                status: final(self).status,
                ..*old(self)
            }),
    {
        let lower = to_ascii_lowercase(url);
        if starts_with(lower.as_str(), "javascript:") {
            self.status = String::from_str("차단된 링크 스킴입니다.");
            return false;
        }
        true
    }

    /// Reports whether the browser opened the link `url`.
    pub fn on_link_opened(&mut self, url: &str, result: Result<(), String>)
        ensures
            match result {
                Ok(()) => final(self).status@ == "브라우저에서 열기: "@ + url@,
                Err(e) => final(self).status@ == "링크 열기 실패: "@ + e@,
            },
            *final(self) == (App { status: final(self).status, ..*old(self) }),
    {
        let mut st = match &result {
            Ok(()) => String::from_str("브라우저에서 열기: "),
            Err(_) => String::from_str("링크 열기 실패: "),
        };
        match &result {
            Ok(()) => st.append(url),
            Err(e) => st.append(e.as_str()),
        }
        self.status = st;
    }
}

} // verus!
