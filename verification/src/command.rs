//! The outside world as the rest of the crate sees it: what it can be asked to
//! do, what it answers, and work that is told as a conversation with it.
//!
//! A function that needs other programs does not run them. It takes the answers
//! heard so far and either names the next thing to do or, once it has heard
//! enough, gives its result.
use crate::text::{cat2, copies, owned, trimmed};
use vstd::prelude::*;

verus! {

/// The text that bytes stand for, with U+FFFD where they are no UTF-8.
pub uninterp spec fn lossy(bytes: Seq<u8>) -> Seq<char>;

/// `String::from_utf8_lossy`, which depends on the bytes alone. On bytes that
/// are UTF-8 it gives the characters they encode.
#[verifier::external_body]
fn from_utf8_lossy(bytes: &Vec<u8>) -> (r: String)
    ensures
        r@ == lossy(bytes@),
        vstd::utf8::valid_utf8(bytes@) ==> r@ == vstd::utf8::decode_utf8(bytes@),
{
    String::from_utf8_lossy(bytes).into_owned()
}

// ---------------------------------------------------------------------------
// Requests
// ---------------------------------------------------------------------------

/// A run of another program.
#[derive(Debug)]
pub struct Invocation {
    /// The program's name, to be looked up in the search path.
    pub program: String,
    /// The directory to run it in; that of this program where there is none.
    pub dir: Option<String>,
    /// What the environment variable `GIT_SSH_COMMAND` is set to, if anything.
    pub ssh_command: Option<String>,
    /// Its arguments.
    pub args: Vec<String>,
    /// Whether its output is kept for the answer. Otherwise it goes where the
    /// output of this program goes, and the answer holds none of it.
    pub captured: bool,
}

/// What an `Invocation` says.
#[verifier::ext_equal]
pub struct Call {
    pub program: Seq<char>,
    pub dir: Option<Seq<char>>,
    pub ssh_command: Option<Seq<char>>,
    pub args: Seq<Seq<char>>,
    pub captured: bool,
}

/// The text in `o`, if there is one.
pub open spec fn text_in(o: Option<String>) -> Option<Seq<char>> {
    match o {
        Some(s) => Some(s@),
        None => None,
    }
}

impl View for Invocation {
    type V = Call;

    open spec fn view(&self) -> Call {
        Call {
            program: self.program@,
            dir: text_in(self.dir),
            ssh_command: text_in(self.ssh_command),
            args: crate::text::views(self.args@),
            captured: self.captured,
        }
    }
}

/// `program` with these arguments, run wherever this program runs.
pub open spec fn here(program: Seq<char>, args: Seq<Seq<char>>) -> Call {
    Call { program, dir: None, ssh_command: None, args, captured: true }
}

/// `program` with these arguments, run in `dir`.
pub open spec fn within(dir: Seq<char>, program: Seq<char>, args: Seq<Seq<char>>) -> Call {
    Call { program, dir: Some(dir), ssh_command: None, args, captured: true }
}

/// The same run, with its output left alone.
pub open spec fn uncaptured(call: Call) -> Call {
    Call { captured: false, ..call }
}

impl Invocation {
    /// `program`, without arguments so far, run wherever this program runs.
    pub fn new(program: &str) -> (r: Self)
        ensures
            r@ == here(program@, Seq::empty()),
    {
        let r = Invocation {
            program: owned(program),
            dir: None,
            ssh_command: None,
            args: Vec::new(),
            captured: true,
        };
        assert(r@.args =~= Seq::empty());
        r
    }

    /// `program`, without arguments so far, run in `dir`.
    pub fn new_in(dir: &str, program: &str) -> (r: Self)
        ensures
            r@ == within(dir@, program@, Seq::empty()),
    {
        let r = Invocation {
            program: owned(program),
            dir: Some(owned(dir)),
            ssh_command: None,
            args: Vec::new(),
            captured: true,
        };
        assert(r@.args =~= Seq::empty());
        r
    }

    /// The same run with one more argument.
    pub fn arg(self, text: &str) -> (r: Self)
        ensures
            r@ == (Call { args: self@.args.push(text@), ..self@ }),
    {
        broadcast use crate::text::lemma_views_push;

        let Invocation { program, dir, ssh_command, mut args, captured } = self;
        args.push(owned(text));
        Invocation { program, dir, ssh_command, args, captured }
    }

    /// The same run with its output left alone.
    pub fn uncaptured(self) -> (r: Self)
        ensures
            r@ == uncaptured(self@),
    {
        Invocation { captured: false, ..self }
    }

    /// The same run once more.
    pub fn copy(&self) -> (r: Self)
        ensures
            r@ == self@,
    {
        let dir = match &self.dir {
            Some(d) => Some(owned(d)),
            None => None,
        };
        let ssh_command = match &self.ssh_command {
            Some(c) => Some(owned(c)),
            None => None,
        };
        Invocation {
            program: owned(&self.program),
            dir,
            ssh_command,
            args: copies(&self.args),
            captured: self.captured,
        }
    }

    /// The same run with `GIT_SSH_COMMAND` set.
    pub fn ssh(self, text: &str) -> (r: Self)
        ensures
            r@ == (Call { ssh_command: Some(text@), ..self@ }),
    {
        Invocation { ssh_command: Some(owned(text)), ..self }
    }
}

/// Something to be done outside.
#[derive(Debug)]
pub enum Request {
    /// Run a program.
    Run(Invocation),
    /// See whether anything stands at a path. The answer is a success if so.
    Look(String),
    /// Read a file of text. Its bytes are the standard output of the answer.
    Read(String),
    /// Make a directory, and those above it.
    MakeDirs(String),
    /// Write a text to a file.
    Write(String, String),
    /// Remove a file.
    Remove(String),
}

/// What a `Request` says.
#[verifier::ext_equal]
pub enum Wish {
    Run(Call),
    Look(Seq<char>),
    Read(Seq<char>),
    MakeDirs(Seq<char>),
    Write(Seq<char>, Seq<char>),
    Remove(Seq<char>),
}

impl View for Request {
    type V = Wish;

    open spec fn view(&self) -> Wish {
        match self {
            Request::Run(i) => Wish::Run(i@),
            Request::Look(p) => Wish::Look(p@),
            Request::Read(p) => Wish::Read(p@),
            Request::MakeDirs(p) => Wish::MakeDirs(p@),
            Request::Write(p, t) => Wish::Write(p@, t@),
            Request::Remove(p) => Wish::Remove(p@),
        }
    }
}

impl Request {
    /// The same request once more.
    pub fn copy(&self) -> (r: Self)
        ensures
            r@ == self@,
    {
        match self {
            Request::Run(i) => Request::Run(i.copy()),
            Request::Look(p) => Request::Look(owned(p)),
            Request::Read(p) => Request::Read(owned(p)),
            Request::MakeDirs(p) => Request::MakeDirs(owned(p)),
            Request::Write(p, t) => Request::Write(owned(p), owned(t)),
            Request::Remove(p) => Request::Remove(owned(p)),
        }
    }
}

// ---------------------------------------------------------------------------
// Replies
// ---------------------------------------------------------------------------

/// What a program that was run left behind.
#[derive(Debug)]
pub struct Output {
    /// Its exit code; none where a signal ended it.
    pub code: Option<i32>,
    pub stdout: Vec<u8>,
    pub stderr: Vec<u8>,
}

/// The answer to a request: what came of it or, where the system refused it,
/// the words of the refusal.
pub type Reply = Result<Output, String>;

/// Whether the request was carried out and succeeded.
pub open spec fn succeeded(reply: Reply) -> bool {
    reply matches Ok(out) && out.code == Some(0i32)
}

/// The standard output, as text.
pub open spec fn said(reply: Reply) -> Seq<char> {
    match reply {
        Ok(out) => lossy(out.stdout@),
        Err(_) => Seq::empty(),
    }
}

/// The standard error, as text.
pub open spec fn complained(reply: Reply) -> Seq<char> {
    match reply {
        Ok(out) => lossy(out.stderr@),
        Err(_) => Seq::empty(),
    }
}

impl Output {
    /// Whether the program ended well.
    pub fn success(&self) -> (r: bool)
        ensures
            r == (self.code == Some(0i32)),
    {
        match self.code {
            Some(c) => c == 0,
            None => false,
        }
    }

    /// The standard output, as text.
    pub fn out_text(&self) -> (r: String)
        ensures
            r@ == lossy(self.stdout@),
    {
        from_utf8_lossy(&self.stdout)
    }

    /// The standard error, as text.
    pub fn err_text(&self) -> (r: String)
        ensures
            r@ == lossy(self.stderr@),
    {
        from_utf8_lossy(&self.stderr)
    }
}

/// Whether the request was carried out and succeeded.
pub fn success(reply: &Reply) -> (r: bool)
    ensures
        r == succeeded(*reply),
{
    match reply {
        Ok(out) => out.success(),
        Err(_) => false,
    }
}

/// The standard output, as text.
pub fn out_text(reply: &Reply) -> (r: String)
    ensures
        r@ == said(*reply),
{
    match reply {
        Ok(out) => out.out_text(),
        Err(_) => {
            let r = String::new();
            assert(r@ =~= Seq::empty());
            r
        },
    }
}

/// The standard error, as text.
pub fn err_text(reply: &Reply) -> (r: String)
    ensures
        r@ == complained(*reply),
{
    match reply {
        Ok(out) => out.err_text(),
        Err(_) => {
            let r = String::new();
            assert(r@ =~= Seq::empty());
            r
        },
    }
}

// ---------------------------------------------------------------------------
// Conversations
// ---------------------------------------------------------------------------

/// Where a conversation stands.
#[derive(Debug)]
pub enum Step<T> {
    /// This is to be done next.
    Ask(Request),
    /// This is the result, with the number of answers it took.
    Done(T, usize),
}

/// What a `Step` says.
#[verifier::ext_equal]
pub enum Turn<T> {
    Ask(Wish),
    Done(T, nat),
}

/// Values with a meaning that does not depend on how they are held.
pub trait Meaning {
    /// The meanings.
    type Of;

    /// The meaning of this value.
    spec fn meaning(&self) -> Self::Of;
}

impl Meaning for () {
    type Of = ();

    open spec fn meaning(&self) -> () {
        ()
    }
}

impl Meaning for bool {
    type Of = bool;

    open spec fn meaning(&self) -> bool {
        *self
    }
}

impl Meaning for u64 {
    type Of = u64;

    open spec fn meaning(&self) -> u64 {
        *self
    }
}

impl Meaning for String {
    type Of = Seq<char>;

    open spec fn meaning(&self) -> Seq<char> {
        self@
    }
}

impl Meaning for Vec<String> {
    type Of = Seq<Seq<char>>;

    open spec fn meaning(&self) -> Seq<Seq<char>> {
        crate::text::views(self@)
    }
}

impl Meaning for Vec<u64> {
    type Of = Seq<u64>;

    open spec fn meaning(&self) -> Seq<u64> {
        self@
    }
}

impl<T: Meaning> Meaning for Option<T> {
    type Of = Option<T::Of>;

    open spec fn meaning(&self) -> Option<T::Of> {
        match self {
            Some(t) => Some(t.meaning()),
            None => None,
        }
    }
}

impl<T: Meaning, E: Meaning> Meaning for Result<T, E> {
    type Of = Result<T::Of, E::Of>;

    open spec fn meaning(&self) -> Result<T::Of, E::Of> {
        match self {
            Ok(t) => Ok(t.meaning()),
            Err(e) => Err(e.meaning()),
        }
    }
}

impl<T: Meaning> Meaning for Step<T> {
    type Of = Turn<T::Of>;

    open spec fn meaning(&self) -> Turn<T::Of> {
        match self {
            Step::Ask(r) => Turn::Ask(r@),
            Step::Done(t, n) => Turn::Done(t.meaning(), *n as nat),
        }
    }
}

/// The conversation that asks for one thing and has its result from the answer.
pub open spec fn once<T>(wish: Wish, replies: Seq<Reply>, result: spec_fn(Reply) -> T) -> Turn<T> {
    if replies.len() == 0 {
        Turn::Ask(wish)
    } else {
        Turn::Done(result(replies[0]), 1)
    }
}

/// The conversation `first`, and then the one that follows from its result.
pub open spec fn chain<A, B>(
    first: Turn<A>,
    replies: Seq<Reply>,
    rest: spec_fn(A, Seq<Reply>) -> Turn<B>,
) -> Turn<B> {
    match first {
        Turn::Ask(wish) => Turn::Ask(wish),
        Turn::Done(a, n) => later(rest(a, replies.skip(n as int)), n),
    }
}

/// The same conversation, with `n` more answers before it.
pub open spec fn later<T>(turn: Turn<T>, n: nat) -> Turn<T> {
    match turn {
        Turn::Ask(wish) => Turn::Ask(wish),
        Turn::Done(t, m) => Turn::Done(t, n + m),
    }
}

/// The conversation `first` and then, unless that failed, the one that follows
/// from its result.
pub open spec fn chain_ok<A, B>(
    first: Turn<Result<A, Seq<char>>>,
    replies: Seq<Reply>,
    rest: spec_fn(A, Seq<Reply>) -> Turn<Result<B, Seq<char>>>,
) -> Turn<Result<B, Seq<char>>> {
    chain(
        first,
        replies,
        |a: Result<A, Seq<char>>, left: Seq<Reply>|
            match a {
                Ok(a) => rest(a, left),
                Err(e) => Turn::Done(Err(e), 0),
            },
    )
}

/// A conversation takes no more answers than there are.
pub open spec fn heard_enough<T>(step: Step<T>, replies: Seq<Reply>) -> bool {
    step matches Step::Done(_, n) ==> n <= replies.len()
}

/// The answers from the `n`th on.
pub fn after<'a>(replies: &'a [Reply], n: usize) -> (r: &'a [Reply])
    requires
        n <= replies@.len(),
    ensures
        r@ == replies@.skip(n as int),
        n + r@.len() == replies@.len() <= usize::MAX,
{
    let r = vstd::slice::slice_subrange(replies, n, replies.len());
    assert(r@ =~= replies@.skip(n as int));
    r
}

// ---------------------------------------------------------------------------
// What a reply comes to
// ---------------------------------------------------------------------------

/// What a request that must succeed comes to: where the system refused it, the
/// refusal after the words for that; where it failed, the words for that.
pub open spec fn must(reply: Reply, refused: Seq<char>, failed: Seq<char>) -> Result<
    (),
    Seq<char>,
> {
    match reply {
        Err(e) => Err(refused + e@),
        Ok(_) => if succeeded(reply) {
            Ok(())
        } else {
            Err(failed)
        },
    }
}

/// The same, with no words before the refusal.
pub open spec fn must_bare(reply: Reply, failed: Seq<char>) -> Result<(), Seq<char>> {
    match reply {
        Err(e) => Err(e@),
        Ok(_) => if succeeded(reply) {
            Ok(())
        } else {
            Err(failed)
        },
    }
}

/// What a request that must succeed and then says something comes to.
pub open spec fn must_say(reply: Reply, refused: Seq<char>, failed: Seq<char>) -> Result<
    Seq<char>,
    Seq<char>,
> {
    match must(reply, refused, failed) {
        Ok(_) => Ok(crate::text::trim(said(reply))),
        Err(e) => Err(e),
    }
}

/// What a request that must only be carried out comes to, with `t` for its
/// result.
pub open spec fn carried<T>(reply: Reply, refused: Seq<char>, t: T) -> Result<T, Seq<char>> {
    match reply {
        Err(e) => Err(refused + e@),
        Ok(_) => Ok(t),
    }
}

/// The same, with no words before the refusal.
pub open spec fn carried_bare<T>(reply: Reply, t: T) -> Result<T, Seq<char>> {
    match reply {
        Err(e) => Err(e@),
        Ok(_) => Ok(t),
    }
}

/// What a request that must succeed comes to.
pub fn must_succeed(reply: &Reply, refused: &str, failed: String) -> (r: Result<(), String>)
    ensures
        r.meaning() == must(*reply, refused@, failed@),
{
    match reply {
        Err(e) => Err(cat2(refused, e)),
        Ok(out) => if out.success() {
            Ok(())
        } else {
            Err(failed)
        },
    }
}

/// The same, with no words before the refusal.
pub fn must_succeed_bare(reply: &Reply, failed: String) -> (r: Result<(), String>)
    ensures
        r.meaning() == must_bare(*reply, failed@),
{
    match reply {
        Err(e) => Err(owned(e)),
        Ok(out) => if out.success() {
            Ok(())
        } else {
            Err(failed)
        },
    }
}

/// What a request that must succeed and then says something comes to.
pub fn must_speak(reply: &Reply, refused: &str, failed: String) -> (r: Result<String, String>)
    ensures
        r.meaning() == must_say(*reply, refused@, failed@),
{
    match must_succeed(reply, refused, failed) {
        Ok(_) => Ok(trimmed(&out_text(reply))),
        Err(e) => Err(e),
    }
}

/// What a request that must only be carried out comes to.
pub fn carried_out<T: Meaning>(reply: &Reply, refused: &str, t: T) -> (r: Result<T, String>)
    ensures
        r.meaning() == carried(*reply, refused@, t.meaning()),
{
    match reply {
        Err(e) => Err(cat2(refused, e)),
        Ok(_) => Ok(t),
    }
}

/// The same, with no words before the refusal.
pub fn carried_out_bare<T: Meaning>(reply: &Reply, t: T) -> (r: Result<T, String>)
    ensures
        r.meaning() == carried_bare(*reply, t.meaning()),
{
    match reply {
        Err(e) => Err(owned(e)),
        Ok(_) => Ok(t),
    }
}

} // verus!
