use vstd::prelude::*;

use crate::command::{texts, Captured};
use crate::net::SocketAddress;

verus! {

/// Why a new configuration file could not be made: it could not be created
/// (it may be there already), or its contents could not be written.
pub enum CreateFailure {
    Create(String),
    Write(String),
}

/// The actions on the machine that change something or talk to the world:
/// running programs, copying, writing, creating and staging files, and name
/// resolution. An application implements it; the library reaches it only
/// through a `Host`, which keeps the record of every action taken.
pub trait Machine {
    /// Runs `program` with `args` and captures what it printed, or says why it
    /// could not be started.
    fn run(&self, program: String, args: Vec<String>) -> Result<Captured, String>;

    /// Copies the file `from` to `to`.
    fn copy(&self, from: String, to: String) -> Result<(), String>;

    /// Replaces the contents of the file `path` with `contents`.
    fn write(&self, path: String, contents: String) -> Result<(), String>;

    /// Creates the new file `path` holding `contents`.
    fn create(&self, path: String, contents: String) -> Result<(), CreateFailure>;

    /// Writes `contents` into a new private temporary file; gives its path.
    fn stage(&self, contents: String) -> Result<String, String>;

    /// Removes a staged file and its private directory.
    fn unstage(&self, path: String);

    /// The socket addresses that `host` and `port` resolve to.
    fn resolve(&self, host: String, port: u16) -> Result<Vec<SocketAddress>, String>;

    /// Opens a TCP connection to `address`; gives how many milliseconds it took.
    fn connect(&self, address: SocketAddress) -> Result<u128, String>;
}

/// One action taken on the machine, with what it came to.
pub enum Event {
    Ran { program: String, args: Vec<String>, out: Result<Captured, String> },
    Copied { from: String, to: String, out: Result<(), String> },
    Wrote { path: String, contents: String, out: Result<(), String> },
    Created { path: String, contents: String, out: Result<(), CreateFailure> },
    Staged { contents: String, out: Result<String, String> },
    Unstaged { path: String },
    Resolved { host: String, port: u16, out: Result<Vec<SocketAddress>, String> },
    Connected { address: SocketAddress, out: Result<u128, String> },
}

/// Whether `e` is a run of `program` with the arguments `args`.
pub open spec fn is_run(e: Event, program: Seq<char>, args: Seq<Seq<char>>) -> bool {
    e matches Event::Ran { program: p, args: a, .. } && p@ == program && texts(a@) == args
}

/// What the run `e` came to.
pub open spec fn run_out(e: Event) -> Result<Captured, String> {
    e->Ran_out
}

/// Whether `e` is a copy of the file `from` to `to`.
pub open spec fn is_copy(e: Event, from: Seq<char>, to: Seq<char>) -> bool {
    e matches Event::Copied { from: f, to: t, .. } && f@ == from && t@ == to
}

/// Whether `e` is a write of `contents` as the file `path`.
pub open spec fn is_write(e: Event, path: Seq<char>, contents: Seq<char>) -> bool {
    e matches Event::Wrote { path: p, contents: c, .. } && p@ == path && c@ == contents
}

/// Whether `e` creates the new file `path` holding `contents`.
pub open spec fn is_create(e: Event, path: Seq<char>, contents: Seq<char>) -> bool {
    e matches Event::Created { path: p, contents: c, .. } && p@ == path && c@ == contents
}

/// Whether `e` stages `contents` in a private temporary file.
pub open spec fn is_stage(e: Event, contents: Seq<char>) -> bool {
    e matches Event::Staged { contents: c, .. } && c@ == contents
}

/// Whether `e` removes the staged file `path`.
pub open spec fn is_unstage(e: Event, path: Seq<char>) -> bool {
    e matches Event::Unstaged { path: p } && p@ == path
}

/// Whether `e` resolves `host` and `port`.
pub open spec fn is_resolve(e: Event, host: Seq<char>, port: u16) -> bool {
    e matches Event::Resolved { host: h, port: p, .. } && h@ == host && p == port
}

/// Whether `e` opens a TCP connection to `address`.
pub open spec fn is_connect(e: Event, address: SocketAddress) -> bool {
    e matches Event::Connected { address: a, .. } && a == address
}

/// What the connection attempt `e` came to: the milliseconds it took, or the
/// error.
pub open spec fn connect_out(e: Event) -> Result<u128, Seq<char>> {
    match e->Connected_out {
        Ok(ms) => Ok(ms),
        Err(m) => Err(m@),
    }
}

/// Whether the record `after` is the record `before` with more actions after it.
pub open spec fn extends(before: Seq<Event>, after: Seq<Event>) -> bool {
    before.len() <= after.len() && after.take(before.len() as int) == before
}

/// The actions recorded in `after` since `before`.
pub open spec fn since(before: Seq<Event>, after: Seq<Event>) -> Seq<Event> {
    after.skip(before.len() as int)
}

/// Records that extend one another add up: what was added from `a` to `c` is
/// what was added from `a` to `b`, then from `b` to `c`.
pub proof fn lemma_since_concat(a: Seq<Event>, b: Seq<Event>, c: Seq<Event>)
    requires
        extends(a, b),
        extends(b, c),
    ensures
        extends(a, c),
        since(a, c) == since(a, b) + since(b, c),
{
    assert(c.take(a.len() as int) =~= b.take(a.len() as int)) by {
        assert forall|i: int| 0 <= i < a.len() implies c.take(a.len() as int)[i] == b.take(a.len() as int)[i] by {
            assert(c.take(b.len() as int)[i] == b[i]);
        }
    }
    assert(since(a, c) =~= since(a, b) + since(b, c)) by {
        assert forall|i: int| 0 <= i < since(a, c).len() implies since(a, c)[i] == (since(a, b) + since(b, c))[i] by {
            if i < b.len() - a.len() {
                assert(c.take(b.len() as int)[a.len() + i] == b[a.len() + i]);
            }
        }
    }
}

/// One action pushed onto a record extends it by exactly that action.
pub proof fn lemma_push(before: Seq<Event>, e: Event)
    ensures
        extends(before, before.push(e)),
        since(before, before.push(e)) == seq![e],
{
    assert(before.push(e).take(before.len() as int) =~= before);
    assert(since(before, before.push(e)) =~= seq![e]);
}

/// A record extends itself, with nothing added.
pub proof fn lemma_since_same(a: Seq<Event>)
    ensures
        extends(a, a),
        since(a, a) == Seq::<Event>::empty(),
{
    assert(a.take(a.len() as int) =~= a);
    assert(since(a, a) =~= Seq::<Event>::empty());
}

/// The machine, and the record of every action taken on it through this host.
pub struct Host<M: Machine> {
    machine: M,
    events: Ghost<Seq<Event>>,
}

impl<M: Machine> Host<M> {
    /// The actions taken through this host so far, in order.
    pub closed spec fn events(&self) -> Seq<Event> {
        self.events@
    }

    /// A host for `machine`, with nothing done yet.
    pub fn new(machine: M) -> (h: Self)
        ensures
            h.events() == Seq::<Event>::empty(),
    {
        Host { machine, events: Ghost(Seq::empty()) }
    }

    /// Runs `program` with `args`.
    pub fn run(&mut self, program: String, args: Vec<String>) -> (out: Result<Captured, String>)
        ensures
            final(self).events() == old(self).events().push(Event::Ran { program, args, out }),
    {
        let ghost (p, a) = (program, args);
        let out = self.machine.run(program, args);
        self.events = Ghost(self.events@.push(Event::Ran { program: p, args: a, out }));
        out
    }

    /// Copies the file `from` to `to`.
    pub fn copy(&mut self, from: String, to: String) -> (out: Result<(), String>)
        ensures
            final(self).events() == old(self).events().push(Event::Copied { from, to, out }),
    {
        let ghost (f, t) = (from, to);
        let out = self.machine.copy(from, to);
        self.events = Ghost(self.events@.push(Event::Copied { from: f, to: t, out }));
        out
    }

    /// Replaces the contents of the file `path` with `contents`.
    pub fn write(&mut self, path: String, contents: String) -> (out: Result<(), String>)
        ensures
            final(self).events() == old(self).events().push(Event::Wrote { path, contents, out }),
    {
        let ghost (p, c) = (path, contents);
        let out = self.machine.write(path, contents);
        self.events = Ghost(self.events@.push(Event::Wrote { path: p, contents: c, out }));
        out
    }

    /// Creates the new file `path` holding `contents`.
    pub fn create(&mut self, path: String, contents: String) -> (out: Result<(), CreateFailure>)
        ensures
            final(self).events() == old(self).events().push(Event::Created { path, contents, out }),
    {
        let ghost (p, c) = (path, contents);
        let out = self.machine.create(path, contents);
        self.events = Ghost(self.events@.push(Event::Created { path: p, contents: c, out }));
        out
    }

    /// Stages `contents` in a private temporary file.
    pub fn stage(&mut self, contents: String) -> (out: Result<String, String>)
        ensures
            final(self).events() == old(self).events().push(Event::Staged { contents, out }),
    {
        let ghost c = contents;
        let out = self.machine.stage(contents);
        self.events = Ghost(self.events@.push(Event::Staged { contents: c, out }));
        out
    }

    /// Removes the staged file `path`.
    pub fn unstage(&mut self, path: String)
        ensures
            final(self).events() == old(self).events().push(Event::Unstaged { path }),
    {
        let ghost p = path;
        self.machine.unstage(path);
        self.events = Ghost(self.events@.push(Event::Unstaged { path: p }));
    }

    /// Resolves `host` and `port`.
    pub fn resolve(&mut self, host: String, port: u16) -> (out: Result<Vec<SocketAddress>, String>)
        ensures
            final(self).events() == old(self).events().push(Event::Resolved { host, port, out }),
    {
        let ghost h = host;
        let out = self.machine.resolve(host, port);
        self.events = Ghost(self.events@.push(Event::Resolved { host: h, port, out }));
        out
    }

    /// Opens a TCP connection to `address`.
    pub fn connect(&mut self, address: SocketAddress) -> (out: Result<u128, String>)
        ensures
            final(self).events() == old(self).events().push(Event::Connected { address, out }),
    {
        let ghost a = address;
        let out = self.machine.connect(address);
        self.events = Ghost(self.events@.push(Event::Connected { address: a, out }));
        out
    }
}

} // verus!
