//! Removal of line comments from a source text.
use vstd::prelude::*;
use crate::text::string_from_chars;
use crate::token::chars_of;

verus! {

/// The number of characters of `s` before its first line break (all of
/// them if it has none).
pub open spec fn line_len(s: Seq<char>) -> nat
    decreases s.len(),
{
    if s.len() == 0 || s[0] == '\n' {
        0
    } else {
        1 + line_len(s.drop_first())
    }
}

pub proof fn lemma_line_len(s: Seq<char>)
    ensures
        line_len(s) <= s.len(),
    decreases s.len(),
{
    if s.len() > 0 && s[0] != '\n' {
        lemma_line_len(s.drop_first());
    }
}

/// `s` with every comment removed: each `//` and the rest of its line, up
/// to (not including) the line break.
pub open spec fn without_comments(s: Seq<char>) -> Seq<char>
    decreases s.len(),
{
    if s.len() == 0 {
        s
    } else if s.len() >= 2 && s[0] == '/' && s[1] == '/' {
        proof {
            lemma_line_len(s.skip(2));
        }
        without_comments(s.skip(2 + line_len(s.skip(2)) as int))
    } else {
        seq![s[0]] + without_comments(s.drop_first())
    }
}

/// The source text `input` with its `//` comments removed; line breaks are
/// kept.
pub fn strip_comments(input: &str) -> (r: String)
    ensures
        r@ == without_comments(input@),
{
    let s = chars_of(input);
    let n = s.len();
    let mut out: Vec<char> = Vec::new();
    let mut i: usize = 0;
    assert(s@.skip(0) =~= s@);
    assert(out@ + without_comments(s@) =~= without_comments(s@));
    while i < n
        invariant
            n == s@.len(),
            s@ == input@,
            i <= n,
            out@ + without_comments(s@.skip(i as int)) == without_comments(s@),
        decreases n - i,
    {
        let ghost rest = s@.skip(i as int);
        if i + 1 < n && s[i] == '/' && s[i + 1] == '/' {
            let mut j: usize = i + 2;
            assert(rest.skip(2) =~= s@.skip(i + 2));
            while j < n && s[j] != '\n'
                invariant
                    n == s@.len(),
                    i + 2 <= j <= n,
                    line_len(rest.skip(2)) == (j - i - 2) + line_len(s@.skip(j as int)),
                decreases n - j,
            {
                assert(s@.skip(j as int).drop_first() =~= s@.skip(j + 1));
                j = j + 1;
            }
            proof {
                assert(rest.skip(2) =~= s@.skip(i + 2));
                if j < n {
                    assert(s@.skip(j as int)[0] == '\n');
                }
                assert(rest.skip(2 + line_len(rest.skip(2)) as int) =~= s@.skip(j as int));
            }
            i = j;
        } else {
            proof {
                assert(rest.drop_first() =~= s@.skip(i + 1));
                assert(rest[0] == s@[i as int]);
                assert(out@.push(s@[i as int]) + without_comments(s@.skip(i + 1)) =~= out@ + (
                seq![s@[i as int]] + without_comments(s@.skip(i + 1))));
            }
            out.push(s[i]);
            i = i + 1;
        }
    }
    proof {
        assert(s@.skip(n as int) =~= Seq::<char>::empty());
        assert(out@ + Seq::<char>::empty() =~= out@);
    }
    string_from_chars(out.as_slice())
}

} // verus!
