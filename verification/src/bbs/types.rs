//! Data exchanged with the boards.

use vstd::prelude::*;

verus! {

/// Which board family a URL belongs to.
#[derive(Debug, Clone, Copy, PartialEq, Eq, Structural)]
pub enum BoardKind {
    Shitaraba,
    Ch2Compat,
}

#[derive(Debug, Clone)]
pub struct ThreadSummary {
    pub key: String,
    pub title: String,
    pub count: u32,
}

/// One post (レス) of a thread.
#[derive(Debug, Clone)]
pub struct Post {
    pub number: u32,
    pub name: String,
    pub mail: String,
    pub date: String,
    pub id: String,
    pub body: String,
    pub thread_title: String,
}

/// Abstract contents of a [`Post`].
pub struct PostV {
    pub number: u32,
    pub name: Seq<char>,
    pub mail: Seq<char>,
    pub date: Seq<char>,
    pub id: Seq<char>,
    pub body: Seq<char>,
    pub thread_title: Seq<char>,
}

impl View for Post {
    type V = PostV;

    open spec fn view(&self) -> PostV {
        PostV {
            number: self.number,
            name: self.name@,
            mail: self.mail@,
            date: self.date@,
            id: self.id@,
            body: self.body@,
            thread_title: self.thread_title@,
        }
    }
}

/// Abstract contents of a list of posts.
pub open spec fn posts_view(v: Seq<Post>) -> Seq<PostV> {
    v.map_values(|p: Post| p@)
}

/// Where an incremental thread fetch left off.
#[derive(Debug, Clone)]
pub struct FetchState {
    pub last_modified: Option<String>,
    pub last_byte: u64,
    pub last_count: u32,
    /// The posts of this answer replace the ones the caller holds (`true`)
    /// or are appended to them (`false`).
    pub full_reload: bool,
}

impl FetchState {
    pub fn default() -> (r: FetchState)
        ensures
            r.last_modified is None,
            r.last_byte == 0,
            r.last_count == 0,
            !r.full_reload,
    {
        FetchState { last_modified: None, last_byte: 0, last_count: 0, full_reload: false }
    }
}

#[derive(Debug, Clone)]
pub struct PostRequest {
    pub name: String,
    pub mail: String,
    pub body: String,
}

/// The settings of a board (SETTING.TXT / setting.cgi). `max_res == 0`
/// means "unknown".
#[derive(Debug, Clone)]
pub struct BoardSetting {
    pub max_res: u32,
    pub default_name: String,
    pub title: String,
}

} // verus!
