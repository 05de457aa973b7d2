//! Tokenizer: splits decoded plain text into an ordered sequence of
//! non-empty tokens, where a token is a maximal run of non-whitespace
//! characters.

use vstd::prelude::*;
use crate::types::views_of;

verus! {

/// Whether `c` is a whitespace character: space, tab, newline and the other
/// Unicode characters with the White_Space property.
pub open spec fn is_ws(c: char) -> bool {
    let u = c as u32;
    ||| u == 0x20
    ||| (0x09 <= u && u <= 0x0D)
    ||| u == 0x85
    ||| u == 0xA0
    ||| u == 0x1680
    ||| (0x2000 <= u && u <= 0x200A)
    ||| u == 0x2028
    ||| u == 0x2029
    ||| u == 0x202F
    ||| u == 0x205F
    ||| u == 0x3000
}

/// Executable whitespace test, equal to `is_ws`.
pub fn is_whitespace_char(c: char) -> (r: bool)
    ensures
        r == is_ws(c),
{
    let u = c as u32;
    u == 0x20 || (0x09 <= u && u <= 0x0D) || u == 0x85 || u == 0xA0 || u == 0x1680 || (0x2000 <= u
        && u <= 0x200A) || u == 0x2028 || u == 0x2029 || u == 0x202F || u == 0x205F || u == 0x3000
}

/// A sequence of characters with no whitespace in it.
pub open spec fn ws_free(t: Seq<char>) -> bool {
    forall|i: int| 0 <= i < t.len() ==> !is_ws(t[i])
}

/// The tokens of `s`, given that the characters read so far form the
/// (whitespace-free) partial token `cur`: whitespace ends the partial token,
/// which is emitted only when non-empty; any other character extends it.
pub open spec fn tokens_from(s: Seq<char>, cur: Seq<char>) -> Seq<Seq<char>>
    decreases s.len(),
{
    if s.len() == 0 {
        if cur.len() == 0 {
            Seq::empty()
        } else {
            seq![cur]
        }
    } else if is_ws(s[0]) {
        if cur.len() == 0 {
            tokens_from(s.drop_first(), Seq::empty())
        } else {
            seq![cur] + tokens_from(s.drop_first(), Seq::empty())
        }
    } else {
        tokens_from(s.drop_first(), cur.push(s[0]))
    }
}

/// The ordered sequence of whitespace-delimited tokens of `s`.
pub open spec fn tokens_of(s: Seq<char>) -> Seq<Seq<char>> {
    tokens_from(s, Seq::empty())
}

proof fn lemma_tokens_from_wellformed(s: Seq<char>, cur: Seq<char>)
    requires
        ws_free(cur),
    ensures
        forall|i: int|
            0 <= i < tokens_from(s, cur).len() ==> (#[trigger] tokens_from(s, cur)[i]).len() > 0
                && ws_free(tokens_from(s, cur)[i]),
    decreases s.len(),
{
    if s.len() == 0 {
        if cur.len() > 0 {
            assert(tokens_from(s, cur) == seq![cur]);
            assert(tokens_from(s, cur)[0] == cur);
        }
    } else if is_ws(s[0]) {
        lemma_tokens_from_wellformed(s.drop_first(), Seq::empty());
        if cur.len() > 0 {
            let rec = tokens_from(s.drop_first(), Seq::empty());
            assert forall|i: int| 0 <= i < tokens_from(s, cur).len() implies (#[trigger] tokens_from(
                s,
                cur,
            )[i]).len() > 0 && ws_free(tokens_from(s, cur)[i]) by {
                if i == 0 {
                    assert(tokens_from(s, cur)[0] == cur);
                } else {
                    assert(tokens_from(s, cur)[i] == rec[i - 1]);
                }
            }
        }
    } else {
        assert(ws_free(cur.push(s[0]))) by {
            assert(forall|i: int|
                0 <= i < cur.len() + 1 ==> !is_ws(#[trigger] cur.push(s[0])[i]));
        }
        lemma_tokens_from_wellformed(s.drop_first(), cur.push(s[0]));
        assert(tokens_from(s, cur) == tokens_from(s.drop_first(), cur.push(s[0])));
    }
}

/// Every token that tokenization yields is a non-empty run of
/// non-whitespace characters: no empty-string tokens, ever.
pub proof fn lemma_tokens_wellformed(text: Seq<char>)
    ensures
        forall|i: int|
            0 <= i < tokens_of(text).len() ==> (#[trigger] tokens_of(text)[i]).len() > 0 && ws_free(
                tokens_of(text)[i],
            ),
{
    lemma_tokens_from_wellformed(text, Seq::empty());
}

/// The tokens of `ts`, joined by single spaces into one text.
pub open spec fn join_with_spaces(ts: Seq<Seq<char>>) -> Seq<char>
    decreases ts.len(),
{
    if ts.len() == 0 {
        Seq::empty()
    } else if ts.len() == 1 {
        ts[0]
    } else {
        ts[0] + seq![' '] + join_with_spaces(ts.drop_first())
    }
}

proof fn lemma_tokens_from_prefix(t: Seq<char>, rest: Seq<char>, cur: Seq<char>)
    requires
        ws_free(t),
    ensures
        tokens_from(t + rest, cur) == tokens_from(rest, cur + t),
    decreases t.len(),
{
    if t.len() == 0 {
        assert(t + rest =~= rest);
        assert(cur + t =~= cur);
    } else {
        assert((t + rest)[0] == t[0]);
        assert((t + rest).drop_first() =~= t.drop_first() + rest);
        lemma_tokens_from_prefix(t.drop_first(), rest, cur.push(t[0]));
        assert(cur.push(t[0]) + t.drop_first() =~= cur + t);
    }
}

/// Tokenizing the whitespace-joined form of any sequence of non-empty,
/// whitespace-free tokens gives back exactly that sequence: tokenization
/// never reorders, merges, drops or invents tokens.
pub proof fn lemma_tokens_of_join(ts: Seq<Seq<char>>)
    requires
        forall|i: int| 0 <= i < ts.len() ==> (#[trigger] ts[i]).len() > 0 && ws_free(ts[i]),
    ensures
        tokens_of(join_with_spaces(ts)) == ts,
    decreases ts.len(),
{
    if ts.len() == 0 {
        assert(tokens_of(join_with_spaces(ts)) =~= ts);
    } else if ts.len() == 1 {
        let t = ts[0];
        lemma_tokens_from_prefix(t, Seq::empty(), Seq::empty());
        assert(t + Seq::<char>::empty() =~= t);
        assert(Seq::<char>::empty() + t =~= t);
        assert(tokens_from(Seq::empty(), t) =~= ts);
    } else {
        let t = ts[0];
        let rest = ts.drop_first();
        let rj = join_with_spaces(rest);
        let tail = seq![' '] + rj;
        assert(t + tail =~= join_with_spaces(ts));
        lemma_tokens_from_prefix(t, tail, Seq::empty());
        assert(Seq::<char>::empty() + t =~= t);
        assert(tail[0] == ' ');
        assert(is_ws(' '));
        assert(tail.drop_first() =~= rj);
        assert(tokens_from(tail, t) == seq![t] + tokens_from(rj, Seq::empty()));
        lemma_tokens_of_join(rest);
        assert(seq![t] + rest =~= ts);
    }
}

/// Splits `text` on runs of whitespace into its ordered sequence of
/// non-empty tokens, casing and attached punctuation preserved.
pub fn tokenize(text: &str) -> (r: Vec<String>)
    ensures
        views_of(r@) == tokens_of(text@),
        forall|i: int| 0 <= i < r@.len() ==> r@[i]@.len() > 0,
{
    let ghost all = text@;
    let n = text.unicode_len();
    let mut out: Vec<String> = Vec::new();
    let mut start: usize = 0;
    let mut i: usize = 0;
    proof {
        assert(all.skip(0) =~= all);
        assert(all.subrange(0, 0) =~= Seq::<char>::empty());
        assert(views_of(out@) + tokens_from(all.skip(0), all.subrange(0, 0)) =~= tokens_of(all));
    }
    while i < n
        invariant
            start <= i <= n == all.len(),
            text@ == all,
            forall|j: int| start <= j < i ==> !is_ws(all[j]),
            views_of(out@) + tokens_from(all.skip(i as int), all.subrange(start as int, i as int))
                == tokens_of(all),
            forall|k: int| 0 <= k < out@.len() ==> out@[k]@.len() > 0,
        decreases n - i,
    {
        let ghost rest = all.skip(i as int);
        let ghost cur = all.subrange(start as int, i as int);
        assert(rest[0] == all[i as int]);
        assert(rest.drop_first() =~= all.skip(i as int + 1));
        let c = text.get_char(i);
        if is_whitespace_char(c) {
            if start < i {
                let tok = text.substring_char(start, i).to_owned();
                out.push(tok);
                proof {
                    assert(views_of(out@) =~= views_of(out@.drop_last()).push(tok@));
                    assert(views_of(out@.drop_last()) + (seq![cur] + tokens_from(
                        rest.drop_first(),
                        Seq::empty(),
                    )) =~= views_of(out@) + tokens_from(rest.drop_first(), Seq::empty()));
                }
            }
            i = i + 1;
            start = i;
            proof {
                assert(all.subrange(start as int, i as int) =~= Seq::<char>::empty());
            }
        } else {
            i = i + 1;
            proof {
                assert(cur.push(all[i - 1]) =~= all.subrange(start as int, i as int));
            }
        }
    }
    proof {
        assert(all.skip(n as int) =~= Seq::<char>::empty());
    }
    if start < n {
        let tok = text.substring_char(start, n).to_owned();
        out.push(tok);
        proof {
            assert(views_of(out@) =~= views_of(out@.drop_last()).push(tok@));
            assert(views_of(out@.drop_last()) + seq![tok@] =~= views_of(out@));
        }
    } else {
        proof {
            assert(all.subrange(start as int, n as int) =~= Seq::<char>::empty());
            assert(views_of(out@) + Seq::<Seq<char>>::empty() =~= views_of(out@));
        }
    }
    out
}

} // verus!
