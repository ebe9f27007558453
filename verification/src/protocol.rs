//! The messages exchanged with the browser, and the records read from the
//! configuration and the file system.
use vstd::prelude::*;

verus! {

/// A message of the websocket protocol: a command, a value that refines it,
/// and a list of arguments.
#[derive(Debug, PartialEq, Eq)]
pub struct TransferData {
    pub command: String,
    pub value: String,
    pub args: Vec<String>,
}

/// The mathematical content of a `TransferData`.
pub struct TransferDataView {
    pub command: Seq<char>,
    pub value: Seq<char>,
    pub args: Seq<Seq<char>>,
}

impl View for TransferData {
    type V = TransferDataView;

    open spec fn view(&self) -> TransferDataView {
        TransferDataView {
            command: self.command@,
            value: self.value@,
            args: self.args.deep_view(),
        }
    }
}

impl DeepView for TransferData {
    type V = TransferDataView;

    open spec fn deep_view(&self) -> TransferDataView {
        self@
    }
}

/// Copies the strings of `v`.
pub fn clone_strings(v: &Vec<String>) -> (r: Vec<String>)
    ensures
        r.deep_view() == v.deep_view(),
{
    let mut r: Vec<String> = Vec::new();
    let n = v.len();
    let mut i: usize = 0;
    while i < n
        invariant
            n == v.len(),
            i <= n,
            r.deep_view() == v.deep_view().take(i as int),
        decreases n - i,
    {
        let c = v[i].clone();
        let ghost before = r.deep_view();
        r.push(c);
        proof {
            assert(r.deep_view() =~= before.push(c@));
            assert(v.deep_view().take(i + 1) =~= v.deep_view().take(i as int).push(v[i as int]@));
        }
        i = i + 1;
    }
    assert(v.deep_view().take(n as int) =~= v.deep_view());
    r
}

impl TransferData {
    /// A message with the given parts.
    pub fn new(command: String, value: String, args: Vec<String>) -> (r: TransferData)
        ensures
            r@ == (TransferDataView { command: command@, value: value@, args: args.deep_view() }),
    {
        TransferData { command, value, args }
    }

    /// A copy of this message.
    pub fn duplicate(&self) -> (r: TransferData)
        ensures
            r@ == self@,
    {
        TransferData {
            command: self.command.clone(),
            value: self.value.clone(),
            args: clone_strings(&self.args),
        }
    }
}

/// An entry of `lang-servers.json`: the name of a language, and the program
/// (with its arguments) that serves it.
#[derive(Debug, PartialEq, Eq)]
pub struct LangServerConfig {
    pub name: String,
    pub program: String,
    pub args: Vec<String>,
}

/// An entry of a directory listing.
#[derive(Debug, PartialEq, Eq)]
pub struct FsEntry {
    pub is_dir: bool,
    pub name: String,
    pub path: String,
}

/// The mathematical content of an `FsEntry`.
pub struct FsEntryView {
    pub is_dir: bool,
    pub name: Seq<char>,
    pub path: Seq<char>,
}

impl View for FsEntry {
    type V = FsEntryView;

    open spec fn view(&self) -> FsEntryView {
        FsEntryView { is_dir: self.is_dir, name: self.name@, path: self.path@ }
    }
}

impl DeepView for FsEntry {
    type V = FsEntryView;

    open spec fn deep_view(&self) -> FsEntryView {
        self@
    }
}

} // verus!
