//! Turning one input line into the action the shell must perform.
//!
//! The first token of the line is the command word; `cd`, `exit`, `clear`
//! and `ls` are built-ins, every other word names an external program to
//! spawn with the remaining tokens as its arguments.

use vstd::prelude::*;
use crate::textfmt::str_eq;
use crate::tokenize::{tokenize, tokens_of, views_of};

verus! {

/// Options parsed from the arguments of `ls`.
pub struct LsOptions {
    /// Long format: one detailed line per entry, with a total header.
    pub show_details: bool,
    /// List entries whose name starts with a dot as well.
    pub show_hidden: bool,
    /// The directory to list.
    pub path: String,
}

/// What the shell must do in response to one input line.
pub enum Action {
    /// Empty line: show the next prompt without doing anything.
    Nothing,
    /// Leave the read-eval loop.
    ExitShell,
    /// Emit the control sequence that clears the terminal.
    ClearScreen,
    /// Change the working directory; `None` means the home directory.
    ChangeDir { target: Option<String> },
    /// List a directory.
    ListDir { opts: LsOptions },
    /// Spawn an external program and wait for it.
    Spawn { command: String, args: Vec<String> },
}

/// An argument that is a run of option flags (`-l`, `-la`, ...).
pub open spec fn is_flag(arg: Seq<char>) -> bool {
    arg.len() > 0 && arg[0] == '-'
}

/// Some flag argument carries the option letter `c`.
pub open spec fn any_flag_with(args: Seq<Seq<char>>, c: char) -> bool {
    exists|i: int| 0 <= i < args.len() && is_flag(args[i]) && args[i].contains(c)
}

/// The directory `ls` lists: the last argument that is not a flag,
/// or the current directory when every argument is a flag.
pub open spec fn ls_path_of(args: Seq<Seq<char>>) -> Seq<char>
    decreases args.len(),
{
    if args.len() == 0 {
        "."@
    } else if !is_flag(args.last()) {
        args.last()
    } else {
        ls_path_of(args.drop_last())
    }
}

/// The action a token list calls for.
pub open spec fn action_for(toks: Seq<Seq<char>>, a: Action) -> bool {
    if toks.len() == 0 {
        a is Nothing
    } else if toks[0] == "cd"@ {
        &&& a is ChangeDir
        &&& if toks.len() >= 2 {
            a->ChangeDir_target matches Some(t) && t@ == toks[1]
        } else {
            a->ChangeDir_target is None
        }
    } else if toks[0] == "exit"@ {
        a is ExitShell
    } else if toks[0] == "clear"@ {
        a is ClearScreen
    } else if toks[0] == "ls"@ {
        &&& a is ListDir
        &&& a->ListDir_opts.show_details == any_flag_with(toks.skip(1), 'l')
        &&& a->ListDir_opts.show_hidden == any_flag_with(toks.skip(1), 'a')
        &&& a->ListDir_opts.path@ == ls_path_of(toks.skip(1))
    } else {
        &&& a is Spawn
        &&& a->Spawn_command@ == toks[0]
        &&& views_of(a->Spawn_args@) == toks.skip(1)
    }
}

/// Whether the character `c` occurs in `s`.
fn char_in(s: &str, c: char) -> (r: bool)
    ensures
        r == s@.contains(c),
{
    let n = s.unicode_len();
    let mut i: usize = 0;
    while i < n
        invariant
            i <= n,
            n == s@.len(),
            forall|j: int| 0 <= j < i ==> s@[j] != c,
        decreases n - i,
    {
        if s.get_char(i) == c {
            proof {
                assert(s@.contains(c)) by {
                    assert(s@[i as int] == c);
                }
            }
            return true;
        }
        i = i + 1;
    }
    false
}

proof fn lemma_any_flag_take_step(args: Seq<Seq<char>>, k: int, c: char)
    requires
        0 <= k < args.len(),
    ensures
        any_flag_with(args.take(k + 1), c) == (any_flag_with(args.take(k), c) || (is_flag(args[k])
            && args[k].contains(c))),
{
    if any_flag_with(args.take(k + 1), c) {
        let i = choose|i: int|
            #![trigger args.take(k + 1)[i]]
            0 <= i < k + 1 && is_flag(args.take(k + 1)[i]) && args.take(k + 1)[i].contains(c);
        if i < k {
            assert(is_flag(args.take(k)[i]) && args.take(k)[i].contains(c));
        } else {
            assert(args.take(k + 1)[k] == args[k]);
        }
    }
    if any_flag_with(args.take(k), c) {
        let i = choose|i: int|
            #![trigger args.take(k)[i]]
            0 <= i < k && is_flag(args.take(k)[i]) && args.take(k)[i].contains(c);
        assert(is_flag(args.take(k + 1)[i]) && args.take(k + 1)[i].contains(c));
    }
    if is_flag(args[k]) && args[k].contains(c) {
        assert(is_flag(args.take(k + 1)[k]) && args.take(k + 1)[k].contains(c));
    }
}

/// Parse the arguments of `ls`: flag runs starting with `-` set options
/// (`l` for details, `a` for hidden entries), the last remaining argument
/// names the directory.
fn parse_ls(toks: &Vec<String>) -> (r: LsOptions)
    requires
        toks@.len() >= 1,
    ensures
        r.show_details == any_flag_with(views_of(toks@).skip(1), 'l'),
        r.show_hidden == any_flag_with(views_of(toks@).skip(1), 'a'),
        r.path@ == ls_path_of(views_of(toks@).skip(1)),
{
    let ghost args = views_of(toks@).skip(1);
    let mut show_details = false;
    let mut show_hidden = false;
    let mut path: Option<String> = None;
    let mut j: usize = 1;
    proof {
        assert(args.take(0) =~= Seq::<Seq<char>>::empty());
    }
    while j < toks.len()
        invariant
            1 <= j <= toks@.len(),
            args == views_of(toks@).skip(1),
            show_details == any_flag_with(args.take(j - 1), 'l'),
            show_hidden == any_flag_with(args.take(j - 1), 'a'),
            path is None ==> ls_path_of(args.take(j - 1)) == "."@,
            path matches Some(p) ==> p@ == ls_path_of(args.take(j - 1)),
        decreases toks@.len() - j,
    {
        let ghost k = j - 1;
        proof {
            assert(args[k] == toks@[j as int]@);
            lemma_any_flag_take_step(args, k, 'l');
            lemma_any_flag_take_step(args, k, 'a');
            assert(args.take(k + 1).drop_last() =~= args.take(k));
            assert(args.take(k + 1).last() == args[k]);
        }
        let arg = &toks[j];
        let flag = arg.as_str().unicode_len() > 0 && arg.as_str().get_char(0) == '-';
        if flag {
            if char_in(arg.as_str(), 'l') {
                show_details = true;
            }
            if char_in(arg.as_str(), 'a') {
                show_hidden = true;
            }
        } else {
            path = Some(arg.clone());
        }
        j = j + 1;
    }
    proof {
        assert(args.take(toks@.len() - 1) =~= args);
    }
    let path = match path {
        Some(p) => p,
        None => ".".to_owned(),
    };
    LsOptions { show_details, show_hidden, path }
}

fn rest_args(toks: &Vec<String>) -> (r: Vec<String>)
    requires
        toks@.len() >= 1,
    ensures
        views_of(r@) == views_of(toks@).skip(1),
{
    let mut r: Vec<String> = Vec::new();
    let mut j: usize = 1;
    while j < toks.len()
        invariant
            1 <= j <= toks@.len(),
            views_of(r@) == views_of(toks@).subrange(1, j as int),
        decreases toks@.len() - j,
    {
        let ghost old_r = r@;
        r.push(toks[j].clone());
        proof {
            assert(views_of(r@) =~= views_of(old_r).push(toks@[j as int]@));
            assert(views_of(r@) =~= views_of(toks@).subrange(1, j + 1));
        }
        j = j + 1;
    }
    proof {
        assert(views_of(toks@).subrange(1, toks@.len() as int) =~= views_of(toks@).skip(1));
    }
    r
}

/// Decide what one input line asks the shell to do.
pub fn dispatch_line(line: &str) -> (a: Action)
    ensures
        action_for(tokens_of(line@), a),
{
    let toks = tokenize(line);
    dispatch_tokens(toks)
}

/// Decide what a tokenized line asks the shell to do.
pub fn dispatch_tokens(toks: Vec<String>) -> (a: Action)
    ensures
        action_for(views_of(toks@), a),
{
    if toks.len() == 0 {
        return Action::Nothing;
    }
    let head = toks[0].as_str();
    if str_eq(head, "cd") {
        let target = if toks.len() >= 2 {
            Some(toks[1].clone())
        } else {
            None
        };
        Action::ChangeDir { target }
    } else if str_eq(head, "exit") {
        Action::ExitShell
    } else if str_eq(head, "clear") {
        Action::ClearScreen
    } else if str_eq(head, "ls") {
        let opts = parse_ls(&toks);
        Action::ListDir { opts }
    } else {
        let args = rest_args(&toks);
        let command = toks[0].clone();
        Action::Spawn { command, args }
    }
}

} // verus!
