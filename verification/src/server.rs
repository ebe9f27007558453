//! One websocket connection: the registry of its interactive shells, and the
//! decisions taken on each message.  The shells themselves (pseudo terminals)
//! are driven by the caller, which carries out the returned actions.
use vstd::prelude::*;
use crate::protocol::{TransferData, TransferDataView, clone_strings};
use crate::text::{
    parse_i64, parse_i64_spec, format_i64, signed_decimal, parse_u16, parse_u16_spec, trim,
    trim_spec, text_is, join, join_spec, utf8_text,
};
use vstd::utf8::{valid_utf8, decode_utf8, encode_utf8};

verus! {

/// What the caller must do with the shells and the connection.
#[derive(Debug, PartialEq, Eq)]
pub enum ShellAction {
    /// Start a shell under this id (a shell already under it is replaced).
    Spawn(String),
    /// Kill the shell under this id and forget it.
    Kill(String),
    /// Resize the terminal of the shell under `id`.
    Resize { id: String, cols: u16, rows: u16 },
    /// Type `input` into the shell under `id`.
    Write { id: String, input: String },
    /// Send this message to the browser.
    Send(TransferData),
}

/// The mathematical content of a `ShellAction`.
pub enum ShellActionView {
    Spawn(Seq<char>),
    Kill(Seq<char>),
    Resize { id: Seq<char>, cols: u16, rows: u16 },
    Write { id: Seq<char>, input: Seq<char> },
    Send(TransferDataView),
}

impl View for ShellAction {
    type V = ShellActionView;

    open spec fn view(&self) -> ShellActionView {
        match self {
            ShellAction::Spawn(id) => ShellActionView::Spawn(id@),
            ShellAction::Kill(id) => ShellActionView::Kill(id@),
            ShellAction::Resize { id, cols, rows } => ShellActionView::Resize {
                id: id@,
                cols: *cols,
                rows: *rows,
            },
            ShellAction::Write { id, input } => ShellActionView::Write { id: id@, input: input@ },
            ShellAction::Send(m) => ShellActionView::Send(m@),
        }
    }
}

impl DeepView for ShellAction {
    type V = ShellActionView;

    open spec fn deep_view(&self) -> ShellActionView {
        self@
    }
}

/// The message that lists the shells of the connection.
pub open spec fn list_message(ids: Seq<Seq<char>>) -> TransferDataView {
    TransferDataView { command: "process"@, value: "list"@, args: ids }
}

/// The registry with `id` added, if it was not there.
pub open spec fn add_shell(ids: Seq<Seq<char>>, id: Seq<char>) -> Seq<Seq<char>> {
    if ids.contains(id) {
        ids
    } else {
        ids.push(id)
    }
}

/// The registry with `id` taken out, if it was there.
pub open spec fn remove_shell(ids: Seq<Seq<char>>, id: Seq<char>) -> Seq<Seq<char>> {
    if ids.contains(id) {
        ids.remove(ids.index_of(id))
    } else {
        ids
    }
}

/// The registry after adding each of `pids` in turn.
pub open spec fn add_shells(ids: Seq<Seq<char>>, pids: Seq<Seq<char>>) -> Seq<Seq<char>>
    decreases pids.len(),
{
    if pids.len() == 0 {
        ids
    } else {
        add_shell(add_shells(ids, pids.drop_last()), pids.last())
    }
}

/// The registry after killing each of `pids` in turn, and the kills done:
/// an id that is not (or no longer) registered is passed over.
pub open spec fn kill_shells(ids: Seq<Seq<char>>, pids: Seq<Seq<char>>) -> (Seq<Seq<char>>, Seq<ShellActionView>)
    decreases pids.len(),
{
    if pids.len() == 0 {
        (ids, Seq::empty())
    } else {
        let (rest, acts) = kill_shells(ids, pids.drop_last());
        let p = pids.last();
        if rest.contains(p) {
            (remove_shell(rest, p), acts.push(ShellActionView::Kill(p)))
        } else {
            (rest, acts)
        }
    }
}

/// One `Spawn` for each of `pids`, in order.
pub open spec fn spawn_actions(pids: Seq<Seq<char>>) -> Seq<ShellActionView> {
    pids.map_values(|p: Seq<char>| ShellActionView::Spawn(p))
}

/// One `Resize` for each registered shell, in order.
pub open spec fn resize_all(ids: Seq<Seq<char>>, cols: u16, rows: u16) -> Seq<ShellActionView> {
    ids.map_values(|id: Seq<char>| ShellActionView::Resize { id, cols, rows })
}

/// The resizes asked by a `process`/`resize` message: the arguments are the
/// shell (empty for all of them), the rows and the columns, the numbers
/// being read after trimming.
pub open spec fn resize_actions(ids: Seq<Seq<char>>, args: Seq<Seq<char>>) -> Seq<ShellActionView> {
    if args.len() >= 3 {
        match (parse_u16_spec(trim_spec(args[1])), parse_u16_spec(trim_spec(args[2]))) {
            (Some(rows), Some(cols)) => {
                if args[0].len() == 0 {
                    resize_all(ids, cols as u16, rows as u16)
                } else if ids.contains(args[0]) {
                    seq![ShellActionView::Resize { id: args[0], cols: cols as u16, rows: rows as u16 }]
                } else {
                    Seq::empty()
                }
            },
            _ => Seq::empty(),
        }
    } else {
        Seq::empty()
    }
}

/// The registry and the actions after a `process` message.
pub open spec fn process_step(ids: Seq<Seq<char>>, req: TransferDataView) -> (Seq<Seq<char>>, Seq<ShellActionView>) {
    if req.value == "list"@ {
        (ids, seq![ShellActionView::Send(list_message(ids))])
    } else if req.value == "new"@ {
        let after = add_shells(ids, req.args);
        (after, spawn_actions(req.args).push(ShellActionView::Send(list_message(after))))
    } else if req.value == "kill"@ {
        let (after, kills) = kill_shells(ids, req.args);
        (after, kills.push(ShellActionView::Send(list_message(after))))
    } else if req.value == "resize"@ {
        (ids, resize_actions(ids, req.args))
    } else {
        (ids, Seq::empty())
    }
}

/// The answer to a `ping` message received at time `now` (milliseconds):
/// the same command and value, with the time read from the first argument
/// and `now`, both written in decimal.
pub open spec fn pong(req: TransferDataView, now: int) -> Option<TransferDataView> {
    if req.args.len() > 0 {
        match parse_i64_spec(req.args[0]) {
            Some(t) => Some(
                TransferDataView {
                    command: "ping"@,
                    value: req.value,
                    args: seq![signed_decimal(t), signed_decimal(now)],
                },
            ),
            None => None,
        }
    } else {
        None
    }
}

/// The actions after an `exec` message: its arguments, joined by spaces,
/// are typed into the shell named by its value, if there is one.
pub open spec fn exec_actions(ids: Seq<Seq<char>>, req: TransferDataView) -> Seq<ShellActionView> {
    if ids.contains(req.value) {
        seq![ShellActionView::Write { id: req.value, input: join_spec(req.args, " "@) }]
    } else {
        Seq::empty()
    }
}

/// The registry and the actions after a message received at time `now`.
pub open spec fn message_step(ids: Seq<Seq<char>>, req: TransferDataView, now: int) -> (Seq<Seq<char>>, Seq<ShellActionView>) {
    if req.command == "ping"@ {
        (
            ids,
            match pong(req, now) {
                Some(m) => seq![ShellActionView::Send(m)],
                None => Seq::empty(),
            },
        )
    } else if req.command == "process"@ {
        process_step(ids, req)
    } else if req.command == "exec"@ {
        (ids, exec_actions(ids, req))
    } else {
        (ids, Seq::empty())
    }
}

/// The output of a shell as a message: the bytes of each stream are read as
/// UTF-8, a stream that is empty or not valid UTF-8 giving the empty text;
/// there is a message when one of the two texts is not empty.
pub open spec fn stream_text(bytes: Seq<u8>) -> Seq<char> {
    if bytes.len() > 0 && valid_utf8(bytes) {
        decode_utf8(bytes)
    } else {
        Seq::empty()
    }
}

/// The message that carries what the shell `id` wrote.
pub open spec fn output_message(id: Seq<char>, stdout: Seq<u8>, stderr: Seq<u8>) -> Option<TransferDataView> {
    let out = stream_text(stdout);
    let err = stream_text(stderr);
    if out.len() > 0 || err.len() > 0 {
        Some(TransferDataView { command: "exec"@, value: id, args: seq![out, err] })
    } else {
        None
    }
}

/// The shells of one connection, by id.
pub struct Server {
    shells: Vec<String>,
}

impl View for Server {
    type V = Seq<Seq<char>>;

    closed spec fn view(&self) -> Seq<Seq<char>> {
        self.shells.deep_view()
    }
}

impl Server {
    /// No shell is registered twice.
    pub open spec fn wf(&self) -> bool {
        self@.no_duplicates()
    }

    /// A connection without shells.
    pub fn new() -> (s: Server)
        ensures
            s@ == Seq::<Seq<char>>::empty(),
            s.wf(),
    {
        let s = Server { shells: Vec::new() };
        assert(s@ =~= Seq::<Seq<char>>::empty());
        s
    }

    /// The position of the shell `id`, if it is registered.
    fn find(&self, id: &str) -> (r: Option<usize>)
        ensures
            match r {
                Some(i) => i < self@.len() && self@[i as int] == id@,
                None => !self@.contains(id@),
            },
    {
        let n = self.shells.len();
        let mut i: usize = 0;
        while i < n
            invariant
                n == self.shells.len(),
                i <= n,
                forall|j: int| 0 <= j < i ==> self@[j] != id@,
            decreases n - i,
        {
            if text_is(self.shells[i].as_str(), id) {
                return Some(i);
            }
            i = i + 1;
        }
        None
    }

    /// Whether the shell `id` is registered.
    pub fn has_shell(&self, id: &str) -> (b: bool)
        ensures
            b == self@.contains(id@),
    {
        self.find(id).is_some()
    }

    /// Registers `id`, if it is not registered yet.
    fn add(&mut self, id: &String)
        requires
            old(self).wf(),
        ensures
            final(self).wf(),
            final(self)@ == add_shell(old(self)@, id@),
    {
        if self.find(id.as_str()).is_none() {
            let ghost before = self@;
            self.shells.push(id.clone());
            proof {
                assert(self@ =~= before.push(id@));
                assert(self@.no_duplicates()) by {
                    assert forall|i: int, j: int| 0 <= i < self@.len() && 0 <= j < self@.len() && i != j
                        implies self@[i] != self@[j] by {
                        if i < before.len() && j < before.len() {
                        } else if i == before.len() {
                            assert(self@[j] == before[j]);
                        } else {
                            assert(self@[i] == before[i]);
                        }
                    }
                }
            }
        }
    }

    /// Forgets the shell at position `k`.
    fn remove_at(&mut self, k: usize)
        requires
            old(self).wf(),
            k < old(self)@.len(),
        ensures
            final(self).wf(),
            final(self)@ == remove_shell(old(self)@, old(self)@[k as int]),
    {
        let ghost before = self@;
        let ghost id = before[k as int];
        self.shells.remove(k);
        proof {
            assert(self@ =~= before.remove(k as int));
            assert(before.contains(id));
            let c = before.index_of(id);
            assert(0 <= c < before.len() && before[c] == id);
            assert(c == k);
            assert(self@.no_duplicates()) by {
                assert forall|i: int, j: int| 0 <= i < self@.len() && 0 <= j < self@.len() && i != j
                    implies self@[i] != self@[j] by {
                    let oi = if i < k { i } else { i + 1 };
                    let oj = if j < k { j } else { j + 1 };
                    assert(self@[i] == before[oi]);
                    assert(self@[j] == before[oj]);
                }
            }
        }
    }

    /// The ids of the registered shells.
    pub fn list_processes(&self) -> (r: Vec<String>)
        ensures
            r.deep_view() == self@,
    {
        clone_strings(&self.shells)
    }

    /// The message that lists the shells.
    pub fn process_list_message(&self) -> (m: TransferData)
        ensures
            m@ == list_message(self@),
    {
        TransferData::new(String::from_str("process"), String::from_str("list"), self.list_processes())
    }
    /// The answer to a `ping` message received at time `now`.
    pub fn handle_ping(data: &TransferData, now: i64) -> (r: Option<TransferData>)
        ensures
            r.deep_view() == pong(data@, now as int),
    {
        if data.args.len() > 0 {
            match parse_i64(data.args[0].as_str()) {
                Some(t) => {
                    let mut args: Vec<String> = Vec::new();
                    args.push(format_i64(t));
                    args.push(format_i64(now));
                    let m = TransferData::new(String::from_str("ping"), data.value.clone(), args);
                    assert(m@.args =~= seq![signed_decimal(t as int), signed_decimal(now as int)]);
                    Some(m)
                },
                None => None,
            }
        } else {
            None
        }
    }

    /// Registers each of `pids`, one `Spawn` for each.
    fn spawn_shells(&mut self, pids: &Vec<String>, actions: &mut Vec<ShellAction>)
        requires
            old(self).wf(),
        ensures
            final(self).wf(),
            final(self)@ == add_shells(old(self)@, pids.deep_view()),
            final(actions).deep_view() == old(actions).deep_view() + spawn_actions(pids.deep_view()),
    {
        let ghost start = self@;
        let ghost acts0 = actions.deep_view();
        let n = pids.len();
        let mut i: usize = 0;
        while i < n
            invariant
                n == pids.len(),
                i <= n,
                self.wf(),
                self@ == add_shells(start, pids.deep_view().take(i as int)),
                actions.deep_view() == acts0 + spawn_actions(pids.deep_view().take(i as int)),
            decreases n - i,
        {
            let p = &pids[i];
            let ghost before = actions.deep_view();
            actions.push(ShellAction::Spawn(p.clone()));
            self.add(p);
            proof {
                let taken = pids.deep_view().take(i + 1);
                assert(taken.drop_last() =~= pids.deep_view().take(i as int));
                assert(taken.last() == p@);
                assert(actions.deep_view() =~= before.push(ShellActionView::Spawn(p@)));
                assert(spawn_actions(taken) =~= spawn_actions(pids.deep_view().take(i as int)).push(ShellActionView::Spawn(p@)));
                assert(actions.deep_view() =~= acts0 + spawn_actions(taken));
            }
            i = i + 1;
        }
        assert(pids.deep_view().take(n as int) =~= pids.deep_view());
    }

    /// Kills each of `pids` that is registered, one `Kill` for each.
    fn kill_listed(&mut self, pids: &Vec<String>, actions: &mut Vec<ShellAction>)
        requires
            old(self).wf(),
        ensures
            final(self).wf(),
            final(self)@ == kill_shells(old(self)@, pids.deep_view()).0,
            final(actions).deep_view() == old(actions).deep_view() + kill_shells(old(self)@, pids.deep_view()).1,
    {
        let ghost start = self@;
        let ghost acts0 = actions.deep_view();
        let n = pids.len();
        let mut i: usize = 0;
        assert(acts0 + Seq::<ShellActionView>::empty() =~= acts0);
        while i < n
            invariant
                n == pids.len(),
                i <= n,
                self.wf(),
                self@ == kill_shells(start, pids.deep_view().take(i as int)).0,
                actions.deep_view() == acts0 + kill_shells(start, pids.deep_view().take(i as int)).1,
            decreases n - i,
        {
            let p = &pids[i];
            let ghost before = actions.deep_view();
            let ghost taken = pids.deep_view().take(i + 1);
            proof {
                assert(taken.drop_last() =~= pids.deep_view().take(i as int));
                assert(taken.last() == p@);
            }
            match self.find(p.as_str()) {
                Some(k) => {
                    self.remove_at(k);
                    actions.push(ShellAction::Kill(p.clone()));
                    proof {
                        assert(actions.deep_view() =~= before.push(ShellActionView::Kill(p@)));
                        assert(actions.deep_view() =~= acts0 + kill_shells(start, taken).1);
                    }
                },
                None => {},
            }
            i = i + 1;
        }
        assert(pids.deep_view().take(n as int) =~= pids.deep_view());
    }

    /// One `Resize` for each registered shell.
    fn resize_every(&self, cols: u16, rows: u16) -> (r: Vec<ShellAction>)
        ensures
            r.deep_view() == resize_all(self@, cols, rows),
    {
        let mut r: Vec<ShellAction> = Vec::new();
        let n = self.shells.len();
        let mut i: usize = 0;
        while i < n
            invariant
                n == self.shells.len(),
                i <= n,
                r.deep_view() == resize_all(self@.take(i as int), cols, rows),
            decreases n - i,
        {
            let ghost before = r.deep_view();
            r.push(ShellAction::Resize { id: self.shells[i].clone(), cols, rows });
            proof {
                assert(r.deep_view() =~= before.push(ShellActionView::Resize { id: self@[i as int], cols, rows }));
                assert(resize_all(self@.take(i + 1), cols, rows) =~= resize_all(self@.take(i as int), cols, rows).push(ShellActionView::Resize { id: self@[i as int], cols, rows }));
            }
            i = i + 1;
        }
        assert(self@.take(n as int) =~= self@);
        r
    }

    /// The resizes asked by the arguments of a `process`/`resize` message.
    fn handle_resize(&self, args: &Vec<String>) -> (r: Vec<ShellAction>)
        ensures
            r.deep_view() == resize_actions(self@, args.deep_view()),
    {
        if args.len() >= 3 {
            let rows = parse_u16(trim(args[1].as_str()));
            let cols = parse_u16(trim(args[2].as_str()));
            match (rows, cols) {
                (Some(rows), Some(cols)) => {
                    if args[0].as_str().is_empty() {
                        return self.resize_every(cols, rows);
                    } else if self.has_shell(args[0].as_str()) {
                        let mut r: Vec<ShellAction> = Vec::new();
                        r.push(ShellAction::Resize { id: args[0].clone(), cols, rows });
                        assert(r.deep_view() =~= resize_actions(self@, args.deep_view()));
                        return r;
                    }
                },
                _ => {},
            }
        }
        let r: Vec<ShellAction> = Vec::new();
        assert(r.deep_view() =~= resize_actions(self@, args.deep_view()));
        r
    }

    /// The actions asked by a `process` message: list, start, kill or
    /// resize shells.
    pub fn handle_process(&mut self, data: &TransferData) -> (r: Vec<ShellAction>)
        requires
            old(self).wf(),
        ensures
            final(self).wf(),
            (final(self)@, r.deep_view()) == process_step(old(self)@, data@),
    {
        let mut actions: Vec<ShellAction> = Vec::new();
        let value = data.value.as_str();
        if text_is(value, "list") {
            actions.push(ShellAction::Send(self.process_list_message()));
            assert(actions.deep_view() =~= seq![ShellActionView::Send(list_message(self@))]);
        } else if text_is(value, "new") {
            self.spawn_shells(&data.args, &mut actions);
            let ghost before = actions.deep_view();
            actions.push(ShellAction::Send(self.process_list_message()));
            assert(actions.deep_view() =~= before.push(ShellActionView::Send(list_message(self@))));
            assert(before =~= spawn_actions(data@.args));
        } else if text_is(value, "kill") {
            self.kill_listed(&data.args, &mut actions);
            let ghost before = actions.deep_view();
            actions.push(ShellAction::Send(self.process_list_message()));
            assert(actions.deep_view() =~= before.push(ShellActionView::Send(list_message(self@))));
            assert(before =~= kill_shells(old(self)@, data@.args).1);
        } else if text_is(value, "resize") {
            actions = self.handle_resize(&data.args);
        } else {
            assert(actions.deep_view() =~= Seq::<ShellActionView>::empty());
        }
        actions
    }

    /// The actions asked by an `exec` message.
    pub fn handle_exec(&self, data: &TransferData) -> (r: Vec<ShellAction>)
        ensures
            r.deep_view() == exec_actions(self@, data@),
    {
        let mut r: Vec<ShellAction> = Vec::new();
        if self.has_shell(data.value.as_str()) {
            let input = join(&data.args, " ");
            r.push(ShellAction::Write { id: data.value.clone(), input });
        }
        assert(r.deep_view() =~= exec_actions(self@, data@));
        r
    }

    /// The actions asked by a message received at time `now` (milliseconds);
    /// the time is used only when `needs_clock` holds of the message.
    pub fn on_message(&mut self, data: &TransferData, now: i64) -> (r: Vec<ShellAction>)
        requires
            old(self).wf(),
        ensures
            final(self).wf(),
            (final(self)@, r.deep_view()) == message_step(old(self)@, data@, now as int),
    {
        let command = data.command.as_str();
        if text_is(command, "ping") {
            let mut r: Vec<ShellAction> = Vec::new();
            match Self::handle_ping(data, now) {
                Some(m) => r.push(ShellAction::Send(m)),
                None => {},
            }
            assert(r.deep_view() =~= message_step(self@, data@, now as int).1);
            r
        } else if text_is(command, "process") {
            self.handle_process(data)
        } else if text_is(command, "exec") {
            self.handle_exec(data)
        } else {
            let r: Vec<ShellAction> = Vec::new();
            assert(r.deep_view() =~= Seq::<ShellActionView>::empty());
            r
        }
    }

    /// Whether a message is a `ping` that will be answered, the one case in
    /// which the time at which it arrived is needed.
    pub fn needs_clock(data: &TransferData) -> (b: bool)
        ensures
            b == (data@.command == "ping"@ && pong(data@, 0) is Some),
    {
        text_is(data.command.as_str(), "ping") && data.args.len() > 0
            && parse_i64(data.args[0].as_str()).is_some()
    }

    /// The actions when the connection closes: every shell is killed.
    pub fn on_close(&self) -> (r: Vec<ShellAction>)
        ensures
            r.deep_view() == self@.map_values(|id: Seq<char>| ShellActionView::Kill(id)),
    {
        let mut r: Vec<ShellAction> = Vec::new();
        let n = self.shells.len();
        let mut i: usize = 0;
        while i < n
            invariant
                n == self.shells.len(),
                i <= n,
                r.deep_view() == self@.take(i as int).map_values(|id: Seq<char>| ShellActionView::Kill(id)),
            decreases n - i,
        {
            let ghost before = r.deep_view();
            r.push(ShellAction::Kill(self.shells[i].clone()));
            proof {
                assert(r.deep_view() =~= before.push(ShellActionView::Kill(self@[i as int])));
                assert(self@.take(i + 1).map_values(|id: Seq<char>| ShellActionView::Kill(id)) =~= self@.take(i as int).map_values(|id: Seq<char>| ShellActionView::Kill(id)).push(ShellActionView::Kill(self@[i as int])));
            }
            i = i + 1;
        }
        assert(self@.take(n as int) =~= self@);
        r
    }
}

/// The text of one output stream of a shell.
fn stream_string(bytes: &Vec<u8>) -> (r: String)
    ensures
        r@ == stream_text(bytes@),
{
    if bytes.len() > 0 {
        match utf8_text(bytes) {
            Some(t) => t,
            None => String::new(),
        }
    } else {
        String::new()
    }
}

/// The message that carries what the shell `id` wrote on its two streams
/// since the last poll, if it wrote any text.
pub fn on_timeout_message(id: &str, stdout: &Vec<u8>, stderr: &Vec<u8>) -> (r: Option<TransferData>)
    ensures
        r.deep_view() == output_message(id@, stdout@, stderr@),
{
    let out = stream_string(stdout);
    let err = stream_string(stderr);
    if !out.as_str().is_empty() || !err.as_str().is_empty() {
        let mut args: Vec<String> = Vec::new();
        args.push(out);
        args.push(err);
        let m = TransferData::new(String::from_str("exec"), String::from_str(id), args);
        assert(m@.args =~= seq![stream_text(stdout@), stream_text(stderr@)]);
        Some(m)
    } else {
        None
    }
}

/// Adding an id keeps the registry free of duplicates, and registers
/// exactly that id more.
proof fn lemma_add_shell(ids: Seq<Seq<char>>, id: Seq<char>)
    ensures
        ids.no_duplicates() ==> add_shell(ids, id).no_duplicates(),
        add_shell(ids, id).to_set() == ids.to_set().insert(id),
{
    let r = add_shell(ids, id);
    if !ids.contains(id) {
        assert forall|i: int, j: int| ids.no_duplicates() && 0 <= i < r.len() && 0 <= j < r.len() && i != j
            implies r[i] != r[j] by {
            if i == ids.len() {
                assert(r[j] == ids[j]);
            } else if j == ids.len() {
                assert(r[i] == ids[i]);
            }
        }
        assert forall|x: Seq<char>| r.contains(x) == ids.to_set().insert(id).contains(x) by {
            if r.contains(x) {
                let i = choose|i: int| 0 <= i < r.len() && r[i] == x;
                if i < ids.len() {
                    assert(ids[i] == x);
                }
            }
            if ids.contains(x) {
                let i = choose|i: int| 0 <= i < ids.len() && ids[i] == x;
                assert(r[i] == x);
            }
            if x == id {
                assert(r[ids.len() as int] == x);
            }
        }
    } else {
        assert(ids.to_set().insert(id) =~= ids.to_set());
    }
    assert(r.to_set() =~= ids.to_set().insert(id));
}

/// Taking an id out of a registry without duplicates keeps it free of
/// duplicates, and unregisters exactly that id.
proof fn lemma_remove_shell(ids: Seq<Seq<char>>, id: Seq<char>)
    requires
        ids.no_duplicates(),
    ensures
        remove_shell(ids, id).no_duplicates(),
        remove_shell(ids, id).to_set() == ids.to_set().remove(id),
{
    let r = remove_shell(ids, id);
    if ids.contains(id) {
        let k = ids.index_of(id);
        assert(0 <= k < ids.len() && ids[k] == id);
        assert(r.len() == ids.len() - 1);
        assert forall|i: int| 0 <= i < r.len() implies #[trigger] r[i] == ids[if i < k { i } else { i + 1 }] by {}
        assert forall|i: int, j: int| 0 <= i < r.len() && 0 <= j < r.len() && i != j implies r[i] != r[j] by {
            assert(r[i] == ids[if i < k { i } else { i + 1 }]);
            assert(r[j] == ids[if j < k { j } else { j + 1 }]);
        }
        assert forall|x: Seq<char>| r.contains(x) == ids.to_set().remove(id).contains(x) by {
            if r.contains(x) {
                let i = choose|i: int| 0 <= i < r.len() && r[i] == x;
                let oi = if i < k { i } else { i + 1 };
                assert(r[i] == ids[oi]);
                assert(oi != k);
            }
            if ids.contains(x) && x != id {
                let i = choose|i: int| 0 <= i < ids.len() && ids[i] == x;
                assert(i != k);
                let ri = if i < k { i } else { i - 1 };
                assert(r[ri] == ids[i]);
            }
        }
    } else {
        assert(ids.to_set().remove(id) =~= ids.to_set());
    }
    assert(r.to_set() =~= ids.to_set().remove(id));
}

/// Law: after a `process`/`new` message the registry holds exactly the
/// shells it held before and the ids named by the message, none twice.
pub proof fn lemma_new_registers_named_shells(ids: Seq<Seq<char>>, pids: Seq<Seq<char>>)
    ensures
        ids.no_duplicates() ==> add_shells(ids, pids).no_duplicates(),
        add_shells(ids, pids).to_set() == ids.to_set().union(pids.to_set()),
    decreases pids.len(),
{
    if pids.len() == 0 {
        assert(pids.to_set() =~= Set::<Seq<char>>::empty());
        assert(ids.to_set().union(pids.to_set()) =~= ids.to_set());
    } else {
        let front = pids.drop_last();
        lemma_new_registers_named_shells(ids, front);
        lemma_add_shell(add_shells(ids, front), pids.last());
        assert(pids.to_set() =~= front.to_set().insert(pids.last())) by {
            assert forall|x: Seq<char>| pids.contains(x) == front.to_set().insert(pids.last()).contains(x) by {
                if pids.contains(x) {
                    let i = choose|i: int| 0 <= i < pids.len() && pids[i] == x;
                    if i < front.len() {
                        assert(front[i] == x);
                    }
                }
                if front.contains(x) {
                    let i = choose|i: int| 0 <= i < front.len() && front[i] == x;
                    assert(pids[i] == x);
                }
            }
        }
        assert(add_shells(ids, pids).to_set() =~= ids.to_set().union(pids.to_set()));
    }
}

/// Law: after a `process`/`kill` message the registry holds exactly the
/// shells it held before, but those named by the message; each of these that
/// was registered is killed once, and no other shell is.
#[verifier::spinoff_prover]
pub proof fn lemma_kill_unregisters_named_shells(ids: Seq<Seq<char>>, pids: Seq<Seq<char>>)
    requires
        ids.no_duplicates(),
    ensures
        kill_shells(ids, pids).0.no_duplicates(),
        kill_shells(ids, pids).0.to_set() == ids.to_set().difference(pids.to_set()),
        kill_shells(ids, pids).1.no_duplicates(),
        kill_shells(ids, pids).1.to_set()
            == ids.to_set().intersect(pids.to_set()).map(|id: Seq<char>| ShellActionView::Kill(id)),
    decreases pids.len(),
{
    let (after, kills) = kill_shells(ids, pids);
    if pids.len() == 0 {
        assert(pids.to_set() =~= Set::<Seq<char>>::empty());
        assert(ids.to_set().difference(pids.to_set()) =~= ids.to_set());
        assert(kills.to_set() =~= Set::<ShellActionView>::empty());
        assert(ids.to_set().intersect(pids.to_set()) =~= Set::<Seq<char>>::empty());
        assert(ids.to_set().intersect(pids.to_set()).map(|id: Seq<char>| ShellActionView::Kill(id)) =~= Set::<ShellActionView>::empty());
    } else {
        let front = pids.drop_last();
        let p = pids.last();
        lemma_kill_unregisters_named_shells(ids, front);
        let (rest, acts) = kill_shells(ids, front);
        assert(pids.to_set() =~= front.to_set().insert(p)) by {
            assert forall|x: Seq<char>| pids.contains(x) == front.to_set().insert(p).contains(x) by {
                if pids.contains(x) {
                    let i = choose|i: int| 0 <= i < pids.len() && pids[i] == x;
                    if i < front.len() {
                        assert(front[i] == x);
                    }
                }
                if front.contains(x) {
                    let i = choose|i: int| 0 <= i < front.len() && front[i] == x;
                    assert(pids[i] == x);
                }
            }
        }
        if rest.contains(p) {
            lemma_remove_shell(rest, p);
            assert(after.to_set() =~= ids.to_set().difference(pids.to_set()));
            let k = ShellActionView::Kill(p);
            assert(!acts.contains(k)) by {
                if acts.contains(k) {
                    assert(acts.to_set().contains(k));
                    let id = choose|id: Seq<char>| ids.to_set().intersect(front.to_set()).contains(id) && ShellActionView::Kill(id) == k;
                    assert(id == p);
                    assert(!rest.to_set().contains(p));
                }
            }
            assert forall|i: int, j: int| 0 <= i < kills.len() && 0 <= j < kills.len() && i != j
                implies kills[i] != kills[j] by {
                if i == acts.len() {
                    assert(acts[j] == kills[j]);
                } else if j == acts.len() {
                    assert(acts[i] == kills[i]);
                } else {
                    assert(acts[i] == kills[i] && acts[j] == kills[j]);
                }
            }
            assert forall|a: ShellActionView| kills.contains(a) == ids.to_set().intersect(pids.to_set()).map(|id: Seq<char>| ShellActionView::Kill(id)).contains(a) by {
                if kills.contains(a) {
                    let i = choose|i: int| 0 <= i < kills.len() && kills[i] == a;
                    if i < acts.len() {
                        assert(acts[i] == a);
                        assert(acts.to_set().contains(a));
                        let id = choose|id: Seq<char>| ids.to_set().intersect(front.to_set()).contains(id) && ShellActionView::Kill(id) == a;
                        assert(ids.to_set().intersect(pids.to_set()).contains(id));
                    } else {
                        assert(a == k);
                        assert(rest.to_set().contains(p));
                        assert(ids.to_set().contains(p));
                        assert(pids.to_set().contains(p));
                        assert(ids.to_set().intersect(pids.to_set()).contains(p));
                    }
                }
                if ids.to_set().intersect(pids.to_set()).map(|id: Seq<char>| ShellActionView::Kill(id)).contains(a) {
                    let id = choose|id: Seq<char>| ids.to_set().intersect(pids.to_set()).contains(id) && ShellActionView::Kill(id) == a;
                    if id == p {
                        assert(kills[acts.len() as int] == a);
                    } else {
                        assert(ids.to_set().intersect(front.to_set()).contains(id));
                        assert(acts.to_set().contains(a));
                        let i = choose|i: int| 0 <= i < acts.len() && acts[i] == a;
                        assert(kills[i] == a);
                    }
                }
            }
            assert(kills.to_set() =~= ids.to_set().intersect(pids.to_set()).map(|id: Seq<char>| ShellActionView::Kill(id)));
        } else {
            assert(!rest.to_set().contains(p));
            assert(!ids.to_set().contains(p) || front.to_set().contains(p));
            assert(after.to_set() =~= ids.to_set().difference(pids.to_set()));
            assert(ids.to_set().intersect(pids.to_set()) =~= ids.to_set().intersect(front.to_set()));
        }
    }
}

/// Law: whatever message arrives, the registry never holds a shell twice.
pub proof fn lemma_message_step_keeps_registry_distinct(ids: Seq<Seq<char>>, req: TransferDataView, now: int)
    requires
        ids.no_duplicates(),
    ensures
        message_step(ids, req, now).0.no_duplicates(),
{
    lemma_new_registers_named_shells(ids, req.args);
    lemma_kill_unregisters_named_shells(ids, req.args);
}

/// Law: the list sent after a `process` message (`list`, `new` or `kill`)
/// names exactly the shells registered after it.
pub proof fn lemma_list_reply_is_registry(ids: Seq<Seq<char>>, req: TransferDataView)
    requires
        req.value == "list"@ || req.value == "new"@ || req.value == "kill"@,
    ensures
        process_step(ids, req).1.last() == ShellActionView::Send(list_message(process_step(ids, req).0)),
{
}

/// Law: the `ping` answer echoes the time it was sent, which reads back as
/// the same number, and the receiving time, which reads back as `now`.
pub proof fn lemma_pong_echoes_times(req: TransferDataView, now: i64)
    requires
        pong(req, now as int) is Some,
    ensures
        parse_i64_spec(pong(req, now as int)->0.args[0]) == parse_i64_spec(req.args[0]),
        parse_i64_spec(pong(req, now as int)->0.args[1]) == Some(now as int),
{
    let t = parse_i64_spec(req.args[0])->0;
    crate::text::lemma_parse_i64_of_format(t as i64);
    crate::text::lemma_parse_i64_of_format(now);
}

/// Law: starting shells under fresh ids and then killing them leaves the
/// registry with the shells it had before.
pub proof fn lemma_kill_undoes_new(ids: Seq<Seq<char>>, pids: Seq<Seq<char>>)
    requires
        ids.no_duplicates(),
        forall|i: int| 0 <= i < pids.len() ==> !ids.contains(#[trigger] pids[i]),
    ensures
        kill_shells(add_shells(ids, pids), pids).0.to_set() == ids.to_set(),
{
    lemma_new_registers_named_shells(ids, pids);
    lemma_kill_unregisters_named_shells(add_shells(ids, pids), pids);
    assert forall|x: Seq<char>| ids.to_set().union(pids.to_set()).difference(pids.to_set()).contains(x) == ids.to_set().contains(x) by {
        if ids.contains(x) && pids.contains(x) {
            let i = choose|i: int| 0 <= i < pids.len() && pids[i] == x;
            assert(!ids.contains(pids[i]));
        }
    }
    assert(ids.to_set().union(pids.to_set()).difference(pids.to_set()) =~= ids.to_set());
}

/// Law: a `process`/`new` message starts one shell per argument, in the
/// order of the arguments, and then sends the list.
pub proof fn lemma_new_spawns_each_named_shell(ids: Seq<Seq<char>>, req: TransferDataView)
    requires
        req.value == "new"@,
    ensures
        process_step(ids, req).1.len() == req.args.len() + 1,
        forall|k: int| 0 <= k < req.args.len() ==> process_step(ids, req).1[k] == ShellActionView::Spawn(req.args[k]),
        process_step(ids, req).1[req.args.len() as int] == ShellActionView::Send(list_message(process_step(ids, req).0)),
{
    reveal_strlit("new");
    reveal_strlit("list");
    assert("new"@ != "list"@) by {
        assert("new"@.len() != "list"@.len());
    }
}

/// The text that an `exec` message types into its shell.
pub open spec fn typed_input(ids: Seq<Seq<char>>, req: TransferDataView) -> Seq<char> {
    exec_actions(ids, req)[0]->Write_input
}

/// Law: an `exec` message for a registered shell types, into that shell and
/// only there, its arguments separated by single spaces: nothing for no
/// argument, the argument itself for one, and for more, what the arguments
/// but the last would type, a space, and the last.  An `exec` for an unknown
/// shell does nothing.
pub proof fn lemma_exec_types_arguments_separated_by_spaces(ids: Seq<Seq<char>>, req: TransferDataView)
    ensures
        !ids.contains(req.value) ==> exec_actions(ids, req).len() == 0,
        ids.contains(req.value) ==> {
            &&& exec_actions(ids, req).len() == 1
            &&& exec_actions(ids, req)[0] is Write
            &&& exec_actions(ids, req)[0]->Write_id == req.value
            &&& req.args.len() == 0 ==> typed_input(ids, req) == Seq::<char>::empty()
            &&& req.args.len() == 1 ==> typed_input(ids, req) == req.args[0]
            &&& req.args.len() >= 2 ==> typed_input(ids, req)
                == typed_input(ids, TransferDataView { args: req.args.drop_last(), ..req }) + " "@ + req.args.last()
        },
{
}

/// Law: the text of each stream of a shell is sent unchanged: a stream whose
/// bytes are non-empty valid UTF-8 always gives a message, and the text sent
/// for it encodes back to exactly the bytes read; a stream with nothing
/// readable contributes the empty text, and without any text there is no
/// message.
pub proof fn lemma_output_carries_stream_bytes(id: Seq<char>, stdout: Seq<u8>, stderr: Seq<u8>)
    ensures
        output_message(id, stdout, stderr) matches Some(m) ==> {
            &&& m.command == "exec"@
            &&& m.value == id
            &&& m.args.len() == 2
            &&& (stdout.len() > 0 && valid_utf8(stdout)) ==> encode_utf8(m.args[0]) == stdout
            &&& !(stdout.len() > 0 && valid_utf8(stdout)) ==> m.args[0].len() == 0
            &&& (stderr.len() > 0 && valid_utf8(stderr)) ==> encode_utf8(m.args[1]) == stderr
            &&& !(stderr.len() > 0 && valid_utf8(stderr)) ==> m.args[1].len() == 0
        },
        (stdout.len() > 0 && valid_utf8(stdout)) || (stderr.len() > 0 && valid_utf8(stderr))
            <==> output_message(id, stdout, stderr) is Some,
{
    if valid_utf8(stdout) {
        vstd::utf8::decode_utf8_encode_utf8(stdout);
    }
    if valid_utf8(stderr) {
        vstd::utf8::decode_utf8_encode_utf8(stderr);
    }
    assert(encode_utf8(Seq::<char>::empty()) =~= Seq::<u8>::empty());
}

/// Law: a `resize` with a shell, a number of rows and a number of columns
/// (read after trimming) resizes that shell, if it is registered, or every
/// registered shell in order when the shell is empty; anything else resizes
/// nothing.
pub proof fn lemma_resize_targets(ids: Seq<Seq<char>>, args: Seq<Seq<char>>)
    ensures
        (args.len() < 3 || parse_u16_spec(trim_spec(args[1])) is None || parse_u16_spec(trim_spec(args[2])) is None)
            ==> resize_actions(ids, args).len() == 0,
        (args.len() >= 3 && parse_u16_spec(trim_spec(args[1])) is Some && parse_u16_spec(trim_spec(args[2])) is Some) ==> {
            let rows = parse_u16_spec(trim_spec(args[1]))->0 as u16;
            let cols = parse_u16_spec(trim_spec(args[2]))->0 as u16;
            &&& args[0].len() == 0 ==> {
                &&& resize_actions(ids, args).len() == ids.len()
                &&& forall|k: int| 0 <= k < ids.len() ==> resize_actions(ids, args)[k]
                    == (ShellActionView::Resize { id: ids[k], cols, rows })
            }
            &&& (args[0].len() > 0 && ids.contains(args[0])) ==> resize_actions(ids, args)
                == seq![ShellActionView::Resize { id: args[0], cols, rows }]
            &&& (args[0].len() > 0 && !ids.contains(args[0])) ==> resize_actions(ids, args).len() == 0
        },
{
}

/// Law: a `ping` with a readable time is answered with a `ping` of the same
/// value and two arguments; one without is not answered.
pub proof fn lemma_pong_shape(req: TransferDataView, now: int)
    ensures
        (req.args.len() > 0 && parse_i64_spec(req.args[0]) is Some) <==> pong(req, now) is Some,
        pong(req, now) matches Some(m) ==> m.command == "ping"@ && m.value == req.value && m.args.len() == 2,
{
}

} // verus!
