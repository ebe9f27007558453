//! The file-system commands of the protocol (`fs` messages): what each one
//! asks for, and the messages sent back.
use vstd::prelude::*;
use crate::protocol::{TransferData, TransferDataView, FsEntry, FsEntryView, clone_strings};
use crate::text::text_is;
use crate::server::Server;

verus! {

/// What an `fs` message asks for.
#[derive(Debug, PartialEq, Eq)]
pub enum FsRequest {
    /// List the directory at this path.
    List(String),
    /// Create the file or directory described by this entry (a JSON `FsEntry`).
    New(String),
    /// Create this directory, with its missing parents.
    NewDir(String),
    /// Delete this file, or this directory with its contents.
    Delete(String),
    /// Create the file described by `entry` (a JSON `FsEntry`) and write
    /// `content` to it.
    Save { entry: String, content: String },
    /// A `save` without content: the file described by this entry is created
    /// (or emptied), and then the request fails, having nothing to write.
    SaveWithoutContent(String),
    /// Read this file.
    Open(String),
    /// A known command without its argument: nothing to do.
    Nothing,
    /// An unknown command.
    Unknown(String),
}

/// The mathematical content of an `FsRequest`.
pub enum FsRequestView {
    List(Seq<char>),
    New(Seq<char>),
    NewDir(Seq<char>),
    Delete(Seq<char>),
    Save { entry: Seq<char>, content: Seq<char> },
    SaveWithoutContent(Seq<char>),
    Open(Seq<char>),
    Nothing,
    Unknown(Seq<char>),
}

impl View for FsRequest {
    type V = FsRequestView;

    open spec fn view(&self) -> FsRequestView {
        match self {
            FsRequest::List(p) => FsRequestView::List(p@),
            FsRequest::New(e) => FsRequestView::New(e@),
            FsRequest::NewDir(p) => FsRequestView::NewDir(p@),
            FsRequest::Delete(p) => FsRequestView::Delete(p@),
            FsRequest::Save { entry, content } => FsRequestView::Save { entry: entry@, content: content@ },
            FsRequest::SaveWithoutContent(e) => FsRequestView::SaveWithoutContent(e@),
            FsRequest::Open(p) => FsRequestView::Open(p@),
            FsRequest::Nothing => FsRequestView::Nothing,
            FsRequest::Unknown(v) => FsRequestView::Unknown(v@),
        }
    }
}

/// What an `fs` message asks for, by its value; the first argument is the
/// path or the entry, the second (for `save`) the content, without which a
/// `save` fails.
pub open spec fn fs_request_spec(req: TransferDataView) -> FsRequestView {
    if req.value == "list"@ || req.value == "new"@ || req.value == "new_dir"@
        || req.value == "delete"@ || req.value == "save"@ || req.value == "open"@ {
        if req.args.len() == 0 {
            FsRequestView::Nothing
        } else if req.value == "list"@ {
            FsRequestView::List(req.args[0])
        } else if req.value == "new"@ {
            FsRequestView::New(req.args[0])
        } else if req.value == "new_dir"@ {
            FsRequestView::NewDir(req.args[0])
        } else if req.value == "delete"@ {
            FsRequestView::Delete(req.args[0])
        } else if req.value == "save"@ {
            if req.args.len() > 1 {
                FsRequestView::Save { entry: req.args[0], content: req.args[1] }
            } else {
                FsRequestView::SaveWithoutContent(req.args[0])
            }
        } else {
            FsRequestView::Open(req.args[0])
        }
    } else {
        FsRequestView::Unknown(req.value)
    }
}

impl Server {
    /// What an `fs` message asks for.
    pub fn handle_fs(&self, data: &TransferData) -> (r: FsRequest)
        ensures
            r@ == fs_request_spec(data@),
    {
        let v = data.value.as_str();
        let is_list = text_is(v, "list");
        let is_new = text_is(v, "new");
        let is_new_dir = text_is(v, "new_dir");
        let is_delete = text_is(v, "delete");
        let is_save = text_is(v, "save");
        let is_open = text_is(v, "open");
        if !(is_list || is_new || is_new_dir || is_delete || is_save || is_open) {
            return FsRequest::Unknown(data.value.clone());
        }
        if data.args.len() == 0 {
            return FsRequest::Nothing;
        }
        let first = data.args[0].clone();
        if is_list {
            FsRequest::List(first)
        } else if is_new {
            FsRequest::New(first)
        } else if is_new_dir {
            FsRequest::NewDir(first)
        } else if is_delete {
            FsRequest::Delete(first)
        } else if is_save {
            if data.args.len() > 1 {
                FsRequest::Save { entry: first, content: data.args[1].clone() }
            } else {
                FsRequest::SaveWithoutContent(first)
            }
        } else {
            FsRequest::Open(first)
        }
    }
}

/// The answer to an `open` message: the message itself with the content of
/// the file as one more argument.
pub fn open_reply(data: &TransferData, content: String) -> (r: TransferData)
    ensures
        r@ == (TransferDataView { args: data@.args.push(content@), ..data@ }),
{
    let mut args = clone_strings(&data.args);
    let ghost before = args.deep_view();
    args.push(content);
    assert(args.deep_view() =~= before.push(content@));
    TransferData::new(data.command.clone(), data.value.clone(), args)
}

/// The message that lists a directory, each entry written as JSON.
pub fn fs_list_message(entries: Vec<String>) -> (r: TransferData)
    ensures
        r@ == (TransferDataView { command: "fs"@, value: "list"@, args: entries.deep_view() }),
{
    TransferData::new(String::from_str("fs"), String::from_str("list"), entries)
}

/// The entry for the parent of a listed directory.
pub open spec fn parent_entry(parent: Seq<char>, is_dir: bool) -> FsEntryView {
    FsEntryView { is_dir, name: ".."@, path: parent }
}

/// A directory listing, with the entry `..` for the parent directory at the
/// end when the directory has one (`parent` gives its path and whether it is
/// a directory).
pub fn listing_with_parent(entries: Vec<FsEntry>, parent: Option<(String, bool)>) -> (r: Vec<FsEntry>)
    ensures
        r.deep_view() == match parent {
            Some((p, d)) => entries.deep_view().push(parent_entry(p@, d)),
            None => entries.deep_view(),
        },
{
    let mut r = entries;
    match parent {
        Some((p, d)) => {
            let ghost before = r.deep_view();
            r.push(FsEntry { is_dir: d, name: String::from_str(".."), path: p });
            assert(r.deep_view() =~= before.push(parent_entry(p@, d)));
        },
        None => {},
    }
    r
}

/// What `std::path::Path::parent` gives for `path`.
pub uninterp spec fn path_parent_of(path: Seq<char>) -> Option<Seq<char>>;

/// `std::path::Path::new(path).parent()`, as text.
#[verifier::external_body]
fn path_parent(path: &str) -> (r: Option<String>)
    ensures
        r.deep_view() == path_parent_of(path@),
{
    std::path::Path::new(path).parent().map(|p| p.to_str().unwrap_or_default().to_string())
}

/// The parent directory of `path`, if it has one.
pub fn parent_dir(path: &str) -> (r: Option<String>)
    ensures
        r.deep_view() == path_parent_of(path@),
{
    path_parent(path)
}

/// The names of the `fs` commands are all different.
proof fn lemma_fs_commands_distinct()
    ensures
        "list"@ != "new"@, "list"@ != "new_dir"@, "list"@ != "delete"@, "list"@ != "save"@, "list"@ != "open"@,
        "new"@ != "new_dir"@, "new"@ != "delete"@, "new"@ != "save"@, "new"@ != "open"@,
        "new_dir"@ != "delete"@, "new_dir"@ != "save"@, "new_dir"@ != "open"@,
        "delete"@ != "save"@, "delete"@ != "open"@,
        "save"@ != "open"@,
{
    reveal_strlit("list");
    reveal_strlit("new");
    reveal_strlit("new_dir");
    reveal_strlit("delete");
    reveal_strlit("save");
    reveal_strlit("open");
    assert("list"@[0] != "save"@[0] && "list"@[0] != "open"@[0] && "save"@[0] != "open"@[0]);
    assert("new"@.len() != "new_dir"@.len() && "new"@.len() != "delete"@.len() && "new"@.len() != "list"@.len());
    assert("new"@.len() != "save"@.len() && "new"@.len() != "open"@.len());
    assert("new_dir"@.len() != "delete"@.len() && "new_dir"@.len() != "save"@.len() && "new_dir"@.len() != "open"@.len());
    assert("new_dir"@.len() != "list"@.len());
    assert("delete"@.len() != "save"@.len() && "delete"@.len() != "open"@.len() && "delete"@.len() != "list"@.len());
}

/// Law: a `save` with at least two arguments asks to write the second one,
/// whatever it is (the empty text included), into the file described by the
/// first; only a `save` with a single argument is one without content.
pub proof fn lemma_save_writes_second_argument(req: TransferDataView)
    requires
        req.value == "save"@,
    ensures
        req.args.len() >= 2 ==> fs_request_spec(req) == (FsRequestView::Save { entry: req.args[0], content: req.args[1] }),
        req.args.len() == 1 ==> fs_request_spec(req) == FsRequestView::SaveWithoutContent(req.args[0]),
        req.args.len() == 0 ==> fs_request_spec(req) == FsRequestView::Nothing,
{
    lemma_fs_commands_distinct();
}

/// Law: every known `fs` command with an argument asks for its first
/// argument as path (or entry), and an unknown command is reported by name.
pub proof fn lemma_fs_request_takes_first_argument(req: TransferDataView)
    requires
        req.args.len() > 0,
    ensures
        req.value == "list"@ ==> fs_request_spec(req) == FsRequestView::List(req.args[0]),
        req.value == "new"@ ==> fs_request_spec(req) == FsRequestView::New(req.args[0]),
        req.value == "new_dir"@ ==> fs_request_spec(req) == FsRequestView::NewDir(req.args[0]),
        req.value == "delete"@ ==> fs_request_spec(req) == FsRequestView::Delete(req.args[0]),
        req.value == "open"@ ==> fs_request_spec(req) == FsRequestView::Open(req.args[0]),
        !(req.value == "list"@ || req.value == "new"@ || req.value == "new_dir"@ || req.value == "delete"@
            || req.value == "save"@ || req.value == "open"@) ==> fs_request_spec(req) == FsRequestView::Unknown(req.value),
{
    lemma_fs_commands_distinct();
}

} // verus!
