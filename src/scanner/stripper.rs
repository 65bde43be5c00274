//! Removal of line comments and nested block comments.
use vstd::prelude::*;

use crate::text::{chars_of, string_of};

verus! {

/// Deepest block-comment nesting that the stripper follows.
pub const MAX_DEPTH: u8 = 255;

/// State of the comment stripper between two characters.
#[derive(Debug, Clone, Copy, PartialEq, Eq, Structural)]
pub enum StripState {
    /// Outside any comment: characters are kept.
    Normal,
    /// A slash was read outside a comment and is held back until the next
    /// character tells whether a comment starts.
    FirstSlash,
    /// Inside a line comment, up to the next newline.
    LineComment,
    /// Inside block comments nested to the given depth.
    BlockComment(u8),
    /// A slash was read inside a block comment: a star here opens a deeper level.
    BlockCommentSlash(u8),
    /// A star was read inside a block comment: a slash here closes one level.
    BlockCommentStar(u8),
}

#[derive(Debug, Clone, Copy, PartialEq, Eq, Structural)]
pub enum StripError {
    /// Block comments were nested deeper than the stripper follows.
    MaxCommentDepth,
}

/// One transition of the stripper: the next state and the characters kept,
/// or `None` where nesting goes too deep.
pub open spec fn strip_step(st: StripState, c: char) -> Option<(StripState, Seq<char>)> {
    match st {
        StripState::Normal => if c == '/' {
            Some((StripState::FirstSlash, Seq::empty()))
        } else {
            Some((StripState::Normal, seq![c]))
        },
        StripState::FirstSlash => if c == '/' {
            Some((StripState::LineComment, Seq::empty()))
        } else if c == '*' {
            Some((StripState::BlockComment(1), Seq::empty()))
        } else {
            Some((StripState::Normal, seq!['/', c]))
        },
        StripState::LineComment => if c == '\n' {
            Some((StripState::Normal, seq!['\n']))
        } else {
            Some((StripState::LineComment, Seq::empty()))
        },
        StripState::BlockComment(d) => if c == '/' {
            Some((StripState::BlockCommentSlash(d), Seq::empty()))
        } else if c == '*' {
            if d == MAX_DEPTH {
                None
            } else {
                Some((StripState::BlockCommentStar(d), Seq::empty()))
            }
        } else {
            Some((StripState::BlockComment(d), Seq::empty()))
        },
        StripState::BlockCommentSlash(d) => if c == '*' {
            if d == MAX_DEPTH {
                None
            } else {
                Some((StripState::BlockComment((d + 1) as u8), Seq::empty()))
            }
        } else {
            Some((StripState::BlockComment(d), Seq::empty()))
        },
        StripState::BlockCommentStar(d) => if c == '/' {
            if d <= 1 {
                Some((StripState::Normal, Seq::empty()))
            } else {
                Some((StripState::BlockComment((d - 1) as u8), Seq::empty()))
            }
        } else {
            Some((StripState::BlockComment(d), Seq::empty()))
        },
    }
}

/// The stripper run over `s` from the `Normal` state: the state it ends in and
/// the characters kept, or `None` where it fails.
pub open spec fn strip_run(s: Seq<char>) -> Option<(StripState, Seq<char>)>
    decreases s.len(),
{
    if s.len() == 0 {
        Some((StripState::Normal, Seq::empty()))
    } else {
        match strip_run(s.drop_last()) {
            None => None,
            Some((st, out)) => match strip_step(st, s.last()) {
                None => None,
                Some((next, kept)) => Some((next, out + kept)),
            },
        }
    }
}

/// What stripping `s` gives: the kept characters, or `None` on an error. A
/// slash held back at the very end is kept: no comment follows it.
pub open spec fn stripped(s: Seq<char>) -> Option<Seq<char>> {
    match strip_run(s) {
        None => None,
        Some((st, out)) => Some(
            if st == StripState::FirstSlash {
                out.push('/')
            } else {
                out
            },
        ),
    }
}

/// Once the stripper has failed on a prefix it fails on every longer prefix.
proof fn lemma_failure_persists(s: Seq<char>, k: int, j: int)
    requires
        0 <= k <= j <= s.len(),
        strip_run(s.take(k)) is None,
    ensures
        strip_run(s.take(j)) is None,
    decreases j - k,
{
    if j > k {
        lemma_failure_persists(s, k, j - 1);
        assert(s.take(j).drop_last() =~= s.take(j - 1));
    }
}

/// No comment can start in `t`: every slash is last, or followed by a
/// character that is neither a slash nor a star.
pub open spec fn comment_free(t: Seq<char>) -> bool {
    forall|i: int|
        0 <= i < t.len() && #[trigger] t[i] == '/' ==> i + 1 == t.len() || (t[i + 1] != '/' && t[i
            + 1] != '*')
}

/// Every slash of `t` is followed by a character that is neither a slash
/// nor a star.
pub open spec fn slashes_followed(t: Seq<char>) -> bool {
    forall|i: int|
        0 <= i < t.len() && #[trigger] t[i] == '/' ==> i + 1 < t.len() && t[i + 1] != '/' && t[i
            + 1] != '*'
}

proof fn lemma_kept_comment_free(s: Seq<char>)
    requires
        strip_run(s) is Some,
    ensures
        slashes_followed(strip_run(s)->Some_0.1),
    decreases s.len(),
{
    if s.len() > 0 {
        lemma_kept_comment_free(s.drop_last());
        let (st, out) = strip_run(s.drop_last())->Some_0;
        let (next, kept) = strip_step(st, s.last())->Some_0;
        let t = out + kept;
        assert forall|i: int| 0 <= i < t.len() && #[trigger] t[i] == '/' implies i + 1 < t.len()
            && t[i + 1] != '/' && t[i + 1] != '*' by {
            if i < out.len() {
                assert(t[i] == out[i]);
                assert(t[i + 1] == out[i + 1]);
            }
        }
    }
}

proof fn lemma_comment_free_prefix(t: Seq<char>, k: int)
    requires
        comment_free(t),
        0 <= k <= t.len(),
    ensures
        k > 0 && t[k - 1] == '/' ==> strip_run(t.take(k)) == Some((StripState::FirstSlash, t.take(k - 1))),
        !(k > 0 && t[k - 1] == '/') ==> strip_run(t.take(k)) == Some((StripState::Normal, t.take(k))),
    decreases k,
{
    if k > 0 {
        lemma_comment_free_prefix(t, k - 1);
        assert(t.take(k).drop_last() =~= t.take(k - 1));
        assert(t.take(k).last() == t[k - 1]);
        if k > 1 && t[k - 2] == '/' {
            assert(t.take(k - 2) + seq!['/', t[k - 1]] =~= t.take(k));
        } else {
            assert(t.take(k - 1) + seq![t[k - 1]] =~= t.take(k));
            assert(t.take(k - 1) + Seq::<char>::empty() =~= t.take(k - 1));
        }
    }
}

/// Text without comments goes through the stripper unchanged.
pub proof fn lemma_strip_comment_free(t: Seq<char>)
    requires
        comment_free(t),
    ensures
        stripped(t) == Some(t),
{
    lemma_comment_free_prefix(t, t.len() as int);
    assert(t.take(t.len() as int) =~= t);
    if t.len() > 0 && t[t.len() - 1] == '/' {
        assert(t.take(t.len() - 1).push('/') =~= t);
    }
}

/// Stripping is idempotent: what the stripper keeps holds no comment, so a
/// second pass keeps all of it.
pub proof fn lemma_strip_idempotent(x: Seq<char>)
    requires
        stripped(x) is Some,
    ensures
        stripped(stripped(x)->Some_0) == stripped(x),
{
    lemma_kept_comment_free(x);
    let (st, out) = strip_run(x)->Some_0;
    assert(comment_free(stripped(x)->Some_0)) by {
        if st == StripState::FirstSlash {
            let t = out.push('/');
            assert forall|i: int| 0 <= i < t.len() && #[trigger] t[i] == '/' implies i + 1 == t.len() || (t[i + 1]
                != '/' && t[i + 1] != '*') by {
                if i < out.len() {
                    assert(t[i] == out[i]);
                    if i + 1 < out.len() {
                        assert(t[i + 1] == out[i + 1]);
                    }
                }
            }
        }
    }
    lemma_strip_comment_free(stripped(x)->Some_0);
}

/// Stripping a text that follows a prefix ending outside any comment keeps
/// the prefix's output and appends the text's own.
pub proof fn lemma_strip_concat(a: Seq<char>, b: Seq<char>)
    requires
        strip_run(a) matches Some((st, _)) && st == StripState::Normal,
    ensures
        strip_run(a + b) == match strip_run(b) {
            None => None,
            Some((st, ob)) => Some((st, strip_run(a)->Some_0.1 + ob)),
        },
    decreases b.len(),
{
    let oa = strip_run(a)->Some_0.1;
    if b.len() == 0 {
        assert(a + b =~= a);
        assert(oa + Seq::<char>::empty() =~= oa);
    } else {
        lemma_strip_concat(a, b.drop_last());
        assert((a + b).drop_last() =~= a + b.drop_last());
        assert((a + b).last() == b.last());
        if let Some((st, ob)) = strip_run(b.drop_last()) {
            if let Some((next, kept)) = strip_step(st, b.last()) {
                assert(oa + ob + kept =~= oa + (ob + kept));
            }
        }
    }
}

proof fn lemma_line_comment_body(c: Seq<char>, k: int)
    requires
        0 <= k <= c.len(),
        forall|i: int| 0 <= i < c.len() ==> c[i] != '\n',
    ensures
        strip_run(seq!['/', '/'] + c.take(k)) == Some((StripState::LineComment, Seq::<char>::empty())),
    decreases k,
{
    if k == 0 {
        let s = seq!['/', '/'] + c.take(0);
        assert(s =~= seq!['/', '/']);
        let s1 = seq!['/'];
        assert(s1.drop_last() =~= Seq::<char>::empty());
        assert(Seq::<char>::empty() + Seq::<char>::empty() =~= Seq::<char>::empty());
        assert(strip_run(Seq::<char>::empty()) == Some((StripState::Normal, Seq::<char>::empty())));
        assert(strip_run(s1) == Some((StripState::FirstSlash, Seq::<char>::empty())));
        assert(s.drop_last() =~= s1);
    } else {
        lemma_line_comment_body(c, k - 1);
        assert((seq!['/', '/'] + c.take(k)).drop_last() =~= seq!['/', '/'] + c.take(k - 1));
        assert((seq!['/', '/'] + c.take(k)).last() == c[k - 1]);
        assert(Seq::<char>::empty() + Seq::<char>::empty() =~= Seq::<char>::empty());
    }
}

/// A line comment is removed up to, and not including, the newline that ends
/// it: the text around it is stripped as it would be alone, and the newline
/// stays.
pub proof fn lemma_strip_line_comment(a: Seq<char>, c: Seq<char>, b: Seq<char>)
    requires
        strip_run(a) matches Some((st, _)) && st == StripState::Normal,
        forall|i: int| 0 <= i < c.len() ==> c[i] != '\n',
    ensures
        stripped(a + seq!['/', '/'] + c + seq!['\n'] + b) == match stripped(b) {
            None => None,
            Some(ob) => Some(stripped(a)->Some_0 + seq!['\n'] + ob),
        },
{
    let comment = seq!['/', '/'] + c + seq!['\n'];
    lemma_line_comment_body(c, c.len() as int);
    assert(c.take(c.len() as int) =~= c);
    assert(comment.drop_last() =~= seq!['/', '/'] + c);
    assert(Seq::<char>::empty() + seq!['\n'] =~= seq!['\n']);
    assert(strip_run(comment) == Some((StripState::Normal, seq!['\n'])));
    lemma_strip_concat(a, comment);
    assert(a + seq!['/', '/'] + c + seq!['\n'] + b =~= (a + comment) + b);
    lemma_strip_concat(a + comment, b);
    if let Some((_, ob)) = strip_run(b) {
        assert(stripped(a)->Some_0 + seq!['\n'] + ob =~= (stripped(a)->Some_0 + seq!['\n']) + ob);
    }
}

proof fn lemma_block_comment_body(c: Seq<char>, k: int)
    requires
        0 <= k <= c.len(),
        forall|i: int| 0 <= i < c.len() ==> c[i] != '/' && c[i] != '*',
    ensures
        strip_run(seq!['/', '*'] + c.take(k)) == Some((StripState::BlockComment(1), Seq::<char>::empty())),
    decreases k,
{
    assert(Seq::<char>::empty() + Seq::<char>::empty() =~= Seq::<char>::empty());
    if k == 0 {
        let s = seq!['/', '*'] + c.take(0);
        assert(s =~= seq!['/', '*']);
        let s1 = seq!['/'];
        assert(s1.drop_last() =~= Seq::<char>::empty());
        assert(strip_run(Seq::<char>::empty()) == Some((StripState::Normal, Seq::<char>::empty())));
        assert(strip_run(s1) == Some((StripState::FirstSlash, Seq::<char>::empty())));
        assert(s.drop_last() =~= s1);
    } else {
        lemma_block_comment_body(c, k - 1);
        assert((seq!['/', '*'] + c.take(k)).drop_last() =~= seq!['/', '*'] + c.take(k - 1));
        assert((seq!['/', '*'] + c.take(k)).last() == c[k - 1]);
    }
}

/// A block comment is removed whole: the text around it is stripped as it
/// would be alone.
pub proof fn lemma_strip_block_comment(a: Seq<char>, c: Seq<char>, b: Seq<char>)
    requires
        strip_run(a) matches Some((st, _)) && st == StripState::Normal,
        forall|i: int| 0 <= i < c.len() ==> c[i] != '/' && c[i] != '*',
    ensures
        stripped(a + seq!['/', '*'] + c + seq!['*', '/'] + b) == match stripped(b) {
            None => None,
            Some(ob) => Some(stripped(a)->Some_0 + ob),
        },
{
    let open = seq!['/', '*'] + c;
    let comment = open + seq!['*', '/'];
    lemma_block_comment_body(c, c.len() as int);
    assert(c.take(c.len() as int) =~= c);
    assert(Seq::<char>::empty() + Seq::<char>::empty() =~= Seq::<char>::empty());
    assert(comment.drop_last() =~= open.push('*'));
    assert(open.push('*').drop_last() =~= open);
    assert(strip_run(open.push('*')) == Some((StripState::BlockCommentStar(1), Seq::<char>::empty())));
    assert(strip_run(comment) == Some((StripState::Normal, Seq::<char>::empty())));
    lemma_strip_concat(a, comment);
    assert(strip_run(a)->Some_0.1 + Seq::<char>::empty() =~= strip_run(a)->Some_0.1);
    assert(a + seq!['/', '*'] + c + seq!['*', '/'] + b =~= (a + comment) + b);
    lemma_strip_concat(a + comment, b);
}

fn step(st: StripState, c: char, out: &mut Vec<char>) -> (r: Result<StripState, StripError>)
    ensures
        match strip_step(st, c) {
            None => r == Err::<StripState, StripError>(StripError::MaxCommentDepth) && final(out)@ == old(out)@,
            Some((next, kept)) => r == Ok::<StripState, StripError>(next) && final(out)@ == old(out)@ + kept,
        },
{
    match st {
        StripState::Normal => {
            if c == '/' {
                Ok(StripState::FirstSlash)
            } else {
                out.push(c);
                Ok(StripState::Normal)
            }
        },
        StripState::FirstSlash => {
            if c == '/' {
                Ok(StripState::LineComment)
            } else if c == '*' {
                Ok(StripState::BlockComment(1))
            } else {
                out.push('/');
                out.push(c);
                Ok(StripState::Normal)
            }
        },
        StripState::LineComment => {
            if c == '\n' {
                out.push('\n');
                Ok(StripState::Normal)
            } else {
                Ok(StripState::LineComment)
            }
        },
        StripState::BlockComment(d) => {
            if c == '/' {
                Ok(StripState::BlockCommentSlash(d))
            } else if c == '*' {
                if d == MAX_DEPTH {
                    Err(StripError::MaxCommentDepth)
                } else {
                    Ok(StripState::BlockCommentStar(d))
                }
            } else {
                Ok(StripState::BlockComment(d))
            }
        },
        StripState::BlockCommentSlash(d) => {
            if c == '*' {
                if d == MAX_DEPTH {
                    Err(StripError::MaxCommentDepth)
                } else {
                    Ok(StripState::BlockComment(d + 1))
                }
            } else {
                Ok(StripState::BlockComment(d))
            }
        },
        StripState::BlockCommentStar(d) => {
            if c == '/' {
                if d <= 1 {
                    Ok(StripState::Normal)
                } else {
                    Ok(StripState::BlockComment(d - 1))
                }
            } else {
                Ok(StripState::BlockComment(d))
            }
        },
    }
}

/// Runs the stripper over a character sequence.
pub fn strip_chars(s: &Vec<char>) -> (r: Result<Vec<char>, StripError>)
    ensures
        match stripped(s@) {
            None => r == Err::<Vec<char>, StripError>(StripError::MaxCommentDepth),
            Some(out) => r is Ok && r->Ok_0@ == out,
        },
{
    let mut out: Vec<char> = Vec::new();
    let mut st = StripState::Normal;
    let mut i: usize = 0;
    while i < s.len()
        invariant
            i <= s.len(),
            strip_run(s@.take(i as int)) == Some((st, out@)),
        decreases s.len() - i,
    {
        let c = s[i];
        assert(s@.take(i + 1).drop_last() =~= s@.take(i as int));
        match step(st, c, &mut out) {
            Ok(next) => st = next,
            Err(e) => {
                proof {
                    lemma_failure_persists(s@, i + 1, s@.len() as int);
                    assert(s@.take(s.len() as int) =~= s@);
                }
                return Err(e);
            },
        }
        i = i + 1;
    }
    assert(s@.take(s.len() as int) =~= s@);
    if st == StripState::FirstSlash {
        out.push('/');
    }
    Ok(out)
}

/// Removes the comments from a source text. Line comments go up to, and not
/// including, the newline that ends them; block comments `/* ... */` nest.
pub fn strip_comments(file_str: String) -> (r: Result<String, StripError>)
    ensures
        match stripped(file_str@) {
            None => r == Err::<String, StripError>(StripError::MaxCommentDepth),
            Some(out) => r is Ok && r->Ok_0@ == out,
        },
{
    let chars = chars_of(file_str.as_str());
    match strip_chars(&chars) {
        Ok(out) => Ok(string_of(&out)),
        Err(e) => Err(e),
    }
}

} // verus!
