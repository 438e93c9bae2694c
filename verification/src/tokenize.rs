//! Splitting an input line into whitespace-separated tokens.
//!
//! A line is cut on runs of blank characters (space, tab, carriage return,
//! line feed, form feed); the tokens are the maximal non-blank runs, in
//! order. An empty or all-blank line has no tokens.

use vstd::prelude::*;

verus! {

/// A character that separates tokens.
pub open spec fn is_space(c: char) -> bool {
    c == ' ' || c == '\t' || c == '\n' || c == '\r' || c == '\u{c}'
}

/// The tokens of `s`, given that the characters of `cur` (a partial token)
/// came immediately before `s` with no separator in between.
pub open spec fn tokens_from(s: Seq<char>, cur: Seq<char>) -> Seq<Seq<char>>
    decreases s.len(),
{
    if s.len() == 0 {
        if cur.len() == 0 {
            Seq::empty()
        } else {
            seq![cur]
        }
    } else if is_space(s[0]) {
        if cur.len() == 0 {
            tokens_from(s.drop_first(), Seq::empty())
        } else {
            seq![cur] + tokens_from(s.drop_first(), Seq::empty())
        }
    } else {
        tokens_from(s.drop_first(), cur.push(s[0]))
    }
}

/// The whitespace-separated tokens of `s`, in order.
pub open spec fn tokens_of(s: Seq<char>) -> Seq<Seq<char>> {
    tokens_from(s, Seq::empty())
}

/// The views of a vector of strings.
pub open spec fn views_of(v: Seq<String>) -> Seq<Seq<char>> {
    v.map_values(|t: String| t@)
}

/// A well-formed token: non-empty and free of separators.
pub open spec fn wf_token(t: Seq<char>) -> bool {
    t.len() > 0 && forall|j: int| 0 <= j < t.len() ==> !is_space(#[trigger] t[j])
}

proof fn lemma_tokens_from_wellformed(s: Seq<char>, cur: Seq<char>)
    requires
        forall|j: int| 0 <= j < cur.len() ==> !is_space(#[trigger] cur[j]),
    ensures
        forall|i: int|
            0 <= i < tokens_from(s, cur).len() ==> wf_token(#[trigger] tokens_from(s, cur)[i]),
    decreases s.len(),
{
    if s.len() == 0 {
        if cur.len() > 0 {
            assert(tokens_from(s, cur)[0] == cur);
        }
    } else if is_space(s[0]) {
        lemma_tokens_from_wellformed(s.drop_first(), Seq::empty());
        if cur.len() == 0 {
            assert(tokens_from(s, cur) == tokens_from(s.drop_first(), Seq::<char>::empty()));
        }
        if cur.len() > 0 {
            let all = tokens_from(s, cur);
            let rest = tokens_from(s.drop_first(), Seq::empty());
            assert forall|i: int| 0 <= i < all.len() implies wf_token(#[trigger] all[i]) by {
                if i == 0 {
                    assert(all[0] == cur);
                } else {
                    assert(all[i] == rest[i - 1]);
                }
            }
        }
    } else {
        let ext = cur.push(s[0]);
        assert forall|j: int| 0 <= j < ext.len() implies !is_space(#[trigger] ext[j]) by {
            if j < cur.len() {
                assert(ext[j] == cur[j]);
            }
        }
        lemma_tokens_from_wellformed(s.drop_first(), ext);
        assert(tokens_from(s, cur) == tokens_from(s.drop_first(), ext));
    }
}

/// Every token of a line is non-empty and holds no separator: the line
/// is cut exactly at the whitespace.
pub proof fn lemma_tokens_wellformed(s: Seq<char>)
    ensures
        forall|i: int| 0 <= i < tokens_of(s).len() ==> wf_token(#[trigger] tokens_of(s)[i]),
{
    lemma_tokens_from_wellformed(s, Seq::empty());
}

/// How one character moves the tokenizer forward.
proof fn lemma_tokens_step(s: Seq<char>, i: int, cur: Seq<char>)
    requires
        0 <= i < s.len(),
    ensures
        is_space(s[i]) && cur.len() == 0 ==> tokens_from(s.skip(i), cur) == tokens_from(
            s.skip(i + 1),
            Seq::<char>::empty(),
        ),
        is_space(s[i]) && cur.len() > 0 ==> tokens_from(s.skip(i), cur) == seq![cur]
            + tokens_from(s.skip(i + 1), Seq::<char>::empty()),
        !is_space(s[i]) ==> tokens_from(s.skip(i), cur) == tokens_from(
            s.skip(i + 1),
            cur.push(s[i]),
        ),
{
    assert(s.skip(i)[0] == s[i]);
    assert(s.skip(i).drop_first() =~= s.skip(i + 1));
}

fn is_space_char(c: char) -> (r: bool)
    ensures
        r == is_space(c),
{
    c == ' ' || c == '\t' || c == '\n' || c == '\r' || c == '\u{c}'
}

/// Split `line` into its whitespace-separated tokens.
pub fn tokenize(line: &str) -> (toks: Vec<String>)
    ensures
        views_of(toks@) == tokens_of(line@),
{
    let n = line.unicode_len();
    let mut toks: Vec<String> = Vec::new();
    let mut cur = String::new();
    let mut i: usize = 0;
    proof {
        assert(line@.skip(0) =~= line@);
        assert(views_of(toks@) + tokens_from(line@, Seq::<char>::empty()) =~= tokens_of(line@));
    }
    while i < n
        invariant
            i <= n,
            n == line@.len(),
            views_of(toks@) + tokens_from(line@.skip(i as int), cur@) == tokens_of(line@),
        decreases n - i,
    {
        let c = line.get_char(i);
        proof {
            lemma_tokens_step(line@, i as int, cur@);
        }
        if is_space_char(c) {
            if cur.as_str().unicode_len() > 0 {
                let ghost old_views = views_of(toks@);
                let ghost cur_v = cur@;
                let ghost rest = tokens_from(line@.skip(i + 1), Seq::<char>::empty());
                toks.push(cur);
                cur = String::new();
                proof {
                    assert(views_of(toks@) =~= old_views.push(cur_v));
                    assert(old_views.push(cur_v) + rest =~= old_views + (seq![cur_v] + rest));
                }
            } else {
                proof {
                    assert(cur@ =~= Seq::<char>::empty());
                }
            }
        } else {
            let ghost old_cur = cur@;
            cur.append(line.substring_char(i, i + 1));
            proof {
                assert(line@.subrange(i as int, i + 1) =~= seq![c]);
                assert(cur@ =~= old_cur.push(c));
            }
        }
        i = i + 1;
    }
    proof {
        assert(line@.skip(n as int) =~= Seq::<char>::empty());
    }
    if cur.as_str().unicode_len() > 0 {
        let ghost old_views = views_of(toks@);
        let ghost cur_v = cur@;
        toks.push(cur);
        proof {
            assert(views_of(toks@) =~= old_views.push(cur_v));
            assert(old_views.push(cur_v) =~= old_views + seq![cur_v]);
        }
    } else {
        proof {
            assert(views_of(toks@) + Seq::<Seq<char>>::empty() =~= views_of(toks@));
        }
    }
    toks
}

} // verus!
