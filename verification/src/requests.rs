//! Requests in plain terms: the words in which it is stated what conversations ask
//! for.
use crate::command;
use crate::command::{Call, Reply, Turn, Wish};
use crate::text;
use vstd::prelude::*;

verus! {

/// A run of a program in a directory, whose output is kept.
pub open spec fn run_in(dir: Seq<char>, program: Seq<char>, args: Seq<Seq<char>>) -> Wish {
    Wish::Run(Call { program, dir: Some(dir), ssh_command: None, args, captured: true })
}

/// A run of a program wherever this program runs, whose output is kept.
pub open spec fn run_here(program: Seq<char>, args: Seq<Seq<char>>) -> Wish {
    Wish::Run(Call { program, dir: None, ssh_command: None, args, captured: true })
}

/// Whether this is what a conversation asks for next.
pub open spec fn asks<T>(turn: Turn<T>, wish: Wish) -> bool {
    turn == Turn::<T>::Ask(wish)
}

/// Whether a conversation ends in an error.
pub open spec fn fails<T>(turn: Turn<Result<T, Seq<char>>>) -> bool {
    match turn {
        Turn::Done(Err(_), _) => true,
        _ => false,
    }
}

/// Whether a conversation ends in an error with these words, after so many answers.
pub open spec fn fails_with<T>(
    turn: Turn<Result<T, Seq<char>>>,
    words: Seq<char>,
    n: nat,
) -> bool {
    turn == Turn::Done(Err::<T, Seq<char>>(words), n)
}

/// Whether a conversation succeeds with this result.
pub open spec fn comes_to<T>(turn: Turn<Result<T, Seq<char>>>, result: T) -> bool {
    match turn {
        Turn::Done(Ok(t), _) => t == result,
        _ => false,
    }
}

/// Whether a request is about a directory: a program is run in it, or something is
/// looked for in it.
pub open spec fn is_about(wish: Wish, dir: Seq<char>) -> bool {
    match wish {
        Wish::Run(call) => call.dir == Some(dir),
        Wish::Look(path) => path.len() > dir.len() && path.take(dir.len() as int) == dir,
        _ => false,
    }
}

/// Whether the next thing that a conversation asks for, if it asks for anything, is
/// about a directory.
pub open spec fn asks_about<T>(turn: Turn<T>, dir: Seq<char>) -> bool {
    turn matches Turn::Ask(wish) ==> is_about(wish, dir)
}

/// Whether a request was carried out, and ended with the exit code 0.
pub open spec fn went_well(reply: Reply) -> bool {
    match reply {
        Ok(out) => out.code == Some(0i32),
        Err(_) => false,
    }
}

/// What a program printed, if it was run.
pub open spec fn printed(reply: Reply) -> Seq<char> {
    match reply {
        Ok(out) => command::lossy(out.stdout@),
        Err(_) => Seq::empty(),
    }
}

/// What a program complained of, if it was run.
pub open spec fn grumbled(reply: Reply) -> Seq<char> {
    match reply {
        Ok(out) => command::lossy(out.stderr@),
        Err(_) => Seq::empty(),
    }
}

/// What a program printed, without the blanks around it.
pub open spec fn answered(reply: Reply) -> Seq<char> {
    text::trim(printed(reply))
}

// ---------------------------------------------------------------------------
// Lists with some elements left out
// ---------------------------------------------------------------------------

/// What is left of a list comes from it.
pub proof fn lemma_left_from<A, B>(s: Seq<A>, f: spec_fn(A) -> Option<B>, y: B)
    requires
        s.filter_map(f).contains(y),
    ensures
        exists|i: int| 0 <= i < s.len() && f(#[trigger] s[i]) == Some(y),
    decreases s.len(),
{
    if s.len() > 0 {
        let front = s.drop_last();
        let now = s.filter_map(f);
        let before = front.filter_map(f);
        let k = choose|k: int| 0 <= k < now.len() && now[k] == y;
        if k < before.len() {
            assert(before[k] == y);
            lemma_left_from(front, f, y);
            let i = choose|i: int| 0 <= i < front.len() && f(#[trigger] front[i]) == Some(y);
            assert(s[i] == front[i]);
        } else {
            assert(f(s[s.len() - 1]) == Some(y));
        }
    }
}

/// Nothing is left out of a list but what is to be.
pub proof fn lemma_left_has<A, B>(s: Seq<A>, f: spec_fn(A) -> Option<B>, i: int)
    requires
        0 <= i < s.len(),
        f(s[i]) is Some,
    ensures
        s.filter_map(f).contains(f(s[i]).unwrap()),
    decreases s.len(),
{
    let front = s.drop_last();
    let now = s.filter_map(f);
    let before = front.filter_map(f);
    let y = f(s[i]).unwrap();
    if i == s.len() - 1 {
        assert(now =~= before + seq![y]);
        assert(now[now.len() - 1] == y);
    } else {
        assert(front[i] == s[i]);
        lemma_left_has(front, f, i);
        let k = choose|k: int| 0 <= k < before.len() && before[k] == y;
        assert(now[k] == y);
    }
}

} // verus!
