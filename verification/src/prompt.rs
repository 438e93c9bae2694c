//! Rendering the prompt: the working directory with the home directory
//! abbreviated to `~`, colored, followed by the prompt marker; and the
//! control sequence of the `clear` built-in.

use vstd::prelude::*;
use crate::textfmt::str_starts_with;

verus! {

/// `s` with every leading repetition of `p` removed (`s` itself when `p`
/// is empty).
pub open spec fn strip_repeat(s: Seq<char>, p: Seq<char>) -> Seq<char>
    decreases s.len(),
{
    if p.len() == 0 || !p.is_prefix_of(s) {
        s
    } else {
        strip_repeat(s.skip(p.len() as int), p)
    }
}

/// The path shown in the prompt: under the home directory it is
/// abbreviated to `~`, keeping a single separator; elsewhere it is shown
/// as it is.
pub open spec fn prompt_path_spec(cwd: Seq<char>, home: Seq<char>) -> Seq<char> {
    if home.len() > 0 && home.is_prefix_of(cwd) {
        let tail = strip_repeat(cwd, home);
        if tail.len() == 0 || tail == "\\"@ || tail == "/"@ {
            "~"@
        } else if tail[0] == '\\' || tail[0] == '/' {
            "~"@ + tail
        } else {
            "~/"@ + tail
        }
    } else {
        cwd
    }
}

/// The full prompt: the abbreviated path in bold cyan, then the marker.
pub open spec fn prompt_line_spec(cwd: Seq<char>, home: Seq<char>) -> Seq<char> {
    "\x1B[1;36m"@ + prompt_path_spec(cwd, home) + "\x1B[0m > "@
}

/// Whether `p` occurs in `s` at character offset `i`.
fn matches_at(s: &str, i: usize, p: &str) -> (r: bool)
    requires
        i <= s@.len(),
    ensures
        r == p@.is_prefix_of(s@.skip(i as int)),
{
    let n = s.unicode_len();
    let m = p.unicode_len();
    if n - i < m {
        return false;
    }
    let seg = s.substring_char(i, i + m);
    let r = crate::textfmt::str_eq(seg, p);
    proof {
        assert(s@.skip(i as int).subrange(0, m as int) =~= s@.subrange(i as int, i + m));
    }
    r
}

/// Abbreviate `cwd` for the prompt.
pub fn prompt_path(cwd: &str, home: &str) -> (r: String)
    ensures
        r@ == prompt_path_spec(cwd@, home@),
{
    let n = cwd.unicode_len();
    let m = home.unicode_len();
    if m == 0 || !str_starts_with(cwd, home) {
        return cwd.to_owned();
    }
    let mut i: usize = 0;
    proof {
        assert(cwd@.skip(0) =~= cwd@);
    }
    while matches_at(cwd, i, home)
        invariant
            i <= n,
            n == cwd@.len(),
            m == home@.len(),
            m >= 1,
            strip_repeat(cwd@, home@) == strip_repeat(cwd@.skip(i as int), home@),
        decreases n - i,
    {
        proof {
            assert(cwd@.skip(i as int).skip(m as int) =~= cwd@.skip(i + m));
        }
        i = i + m;
    }
    let tail = cwd.substring_char(i, n);
    proof {
        assert(cwd@.subrange(i as int, n as int) =~= cwd@.skip(i as int));
        assert(tail@ == strip_repeat(cwd@, home@));
        reveal_strlit("\\");
        reveal_strlit("/");
    }
    let tn = tail.unicode_len();
    if tn == 0 {
        proof {
            assert(tail@.len() == 0);
        }
        "~".to_owned()
    } else {
        let c0 = tail.get_char(0);
        if tn == 1 && (c0 == '\\' || c0 == '/') {
            proof {
                assert(tail@ =~= "\\"@ || tail@ =~= "/"@);
            }
            "~".to_owned()
        } else {
            proof {
                assert(tail@ != "\\"@ && tail@ != "/"@);
            }
            if c0 == '\\' || c0 == '/' {
                let mut r = "~".to_owned();
                r.append(tail);
                r
            } else {
                let mut r = "~/".to_owned();
                r.append(tail);
                r
            }
        }
    }
}

/// Build the full prompt for `cwd`.
pub fn prompt_line(cwd: &str, home: &str) -> (r: String)
    ensures
        r@ == prompt_line_spec(cwd@, home@),
{
    let mut r = "\x1B[1;36m".to_owned();
    let path = prompt_path(cwd, home);
    r.append(path.as_str());
    r.append("\x1B[0m > ");
    proof {
        assert(r@ =~= prompt_line_spec(cwd@, home@));
    }
    r
}

/// The control sequence of `clear`: erase the visible screen, erase the
/// scrollback, and home the cursor.
pub fn clear_sequence() -> (r: String)
    ensures
        r@ == "\x1B[2J\x1B[3J\x1B[H"@,
{
    "\x1B[2J\x1B[3J\x1B[H".to_owned()
}

} // verus!
