use vstd::prelude::*;

use crate::text::{chars_vec, is_space, is_space_char, push_char, to_upper_char, upper_seq};

verus! {

/// Why a client line was rejected before it reached the state
/// machine: the line held no token at all.
#[derive(Clone, Copy, Debug, PartialEq, Eq, Structural)]
pub enum CommandError {
    InvalidCommand,
}

/// One parsed client command line.
///
/// `verb` is the first whitespace-delimited token, upper-cased;
/// `args` are the remaining tokens rejoined with single spaces;
/// `origin` keeps the line as it arrived.
#[derive(Debug)]
pub struct Command {
    pub verb: String,
    pub args: String,
    pub origin: String,
}

/// The whitespace-separated tokens of a line, in order, without the
/// separators.
pub open spec fn tokens(s: Seq<char>) -> Seq<Seq<char>>
    decreases s.len(),
{
    if s.len() == 0 {
        seq![]
    } else {
        let rest = tokens(s.drop_first());
        if is_space(s[0]) {
            rest
        } else if s.len() > 1 && !is_space(s[1]) {
            seq![seq![s[0]] + rest[0]] + rest.drop_first()
        } else {
            seq![seq![s[0]]] + rest
        }
    }
}

/// The tokens rejoined with a single space between neighbours.
pub open spec fn join_spaces(ts: Seq<Seq<char>>) -> Seq<char>
    decreases ts.len(),
{
    if ts.len() == 0 {
        seq![]
    } else if ts.len() == 1 {
        ts[0]
    } else {
        ts[0] + seq![' '] + join_spaces(ts.drop_first())
    }
}

/// A run of non-space characters followed by a space (or the end of
/// the line) is the first token: splitting it off leaves the tokens
/// of the rest.
proof fn lemma_tokens_first_token(s: Seq<char>, k: int)
    requires
        1 <= k <= s.len(),
        forall|j: int| 0 <= j < k ==> !is_space(s[j]),
        k == s.len() || is_space(s[k]),
    ensures
        tokens(s) == seq![s.take(k)] + tokens(s.skip(k)),
    decreases k,
{
    if k == 1 {
        if s.len() == 1 {
            assert(tokens(s.drop_first()) =~= Seq::<Seq<char>>::empty());
            assert(s.take(1) =~= seq![s[0]]);
            assert(s.skip(1) =~= s.drop_first());
            assert(tokens(s) =~~= seq![s.take(1)] + tokens(s.skip(1)));
        } else {
            assert(is_space(s[1]));
            assert(s.take(1) =~= seq![s[0]]);
            assert(s.skip(1) =~= s.drop_first());
            assert(tokens(s) =~~= seq![s.take(1)] + tokens(s.skip(1)));
        }
    } else {
        let t = s.drop_first();
        assert(!is_space(s[1]));
        assert(forall|j: int| 0 <= j < k - 1 ==> !is_space(t[j]));
        lemma_tokens_first_token(t, k - 1);
        let rest = tokens(t);
        assert(rest == seq![t.take(k - 1)] + tokens(t.skip(k - 1)));
        assert(rest[0] == t.take(k - 1));
        assert(rest.drop_first() =~~= tokens(t.skip(k - 1)));
        assert(seq![s[0]] + t.take(k - 1) =~= s.take(k));
        assert(t.skip(k - 1) =~= s.skip(k));
        assert(tokens(s) =~~= seq![s.take(k)] + tokens(s.skip(k)));
    }
}

/// The tokens of a line, materialized.
fn tokenize(line: &str) -> (r: Vec<String>)
    ensures
        r.deep_view() == tokens(line@),
{
    let v = chars_vec(line);
    let n = v.len();
    let mut out: Vec<String> = Vec::new();
    let mut i: usize = 0;
    proof {
        assert(line@.skip(0) =~= line@);
        assert(out.deep_view() + tokens(line@) =~~= tokens(line@));
    }
    while i < n
        invariant
            i <= n,
            v@ == line@,
            n == v@.len(),
            out.deep_view() + tokens(line@.skip(i as int)) == tokens(line@),
        decreases n - i,
    {
        if is_space_char(v[i]) {
            proof {
                assert(line@.skip(i as int).drop_first() =~= line@.skip(i + 1));
            }
            i = i + 1;
        } else {
            let start = i;
            let mut tok = String::new();
            while i < n && !is_space_char(v[i])
                invariant
                    start <= i <= n,
                    v@ == line@,
                    n == v@.len(),
                    tok@ == line@.subrange(start as int, i as int),
                    forall|j: int| start <= j < i ==> !is_space(line@[j]),
                decreases n - i,
            {
                push_char(&mut tok, v[i]);
                i = i + 1;
                proof {
                    assert(tok@ =~= line@.subrange(start as int, i as int));
                }
            }
            proof {
                let suf = line@.skip(start as int);
                let k = i - start;
                assert(forall|j: int| 0 <= j < k ==> !is_space(suf[j]));
                assert(k == suf.len() || is_space(suf[k as int]));
                lemma_tokens_first_token(suf, k as int);
                assert(suf.take(k as int) =~= line@.subrange(start as int, i as int));
                assert(suf.skip(k as int) =~= line@.skip(i as int));
            }
            let ghost pre = out.deep_view();
            out.push(tok);
            proof {
                assert(out.deep_view() =~~= pre.push(tok@));
                assert(out.deep_view() + tokens(line@.skip(i as int)) =~~= tokens(line@));
            }
        }
    }
    proof {
        assert(line@.skip(n as int) =~= Seq::<char>::empty());
        assert(out.deep_view() =~~= tokens(line@));
    }
    out
}

/// The token upper-cased character by character.
fn upper_string(t: &str) -> (r: String)
    ensures
        r@ == upper_seq(t@),
{
    let v = chars_vec(t);
    let n = v.len();
    let mut r = String::new();
    let mut i: usize = 0;
    while i < n
        invariant
            i <= n,
            v@ == t@,
            n == v@.len(),
            r@ == upper_seq(t@).take(i as int),
        decreases n - i,
    {
        push_char(&mut r, to_upper_char(v[i]));
        i = i + 1;
        proof {
            assert(r@ =~= upper_seq(t@).take(i as int));
        }
    }
    proof {
        assert(r@ =~= upper_seq(t@));
    }
    r
}

/// The tokens from position `from` on, rejoined with single spaces.
fn join_tokens(toks: &Vec<String>, from: usize) -> (r: String)
    requires
        from <= toks.len(),
    ensures
        r@ == join_spaces(toks.deep_view().skip(from as int)),
    decreases toks.len() - from,
{
    if from == toks.len() {
        proof {
            assert(toks.deep_view().skip(from as int) =~~= Seq::<Seq<char>>::empty());
        }
        String::new()
    } else if from + 1 == toks.len() {
        proof {
            assert(toks.deep_view().skip(from as int).len() == 1);
            assert(toks.deep_view().skip(from as int)[0] == toks@[from as int]@);
        }
        toks[from].clone()
    } else {
        let mut r = toks[from].clone();
        r.append(" ");
        let rest = join_tokens(toks, from + 1);
        r.append(rest.as_str());
        proof {
            reveal_strlit(" ");
            assert(" "@ =~= seq![' ']);
            let ts = toks.deep_view().skip(from as int);
            assert(ts[0] == toks@[from as int]@);
            assert(ts.drop_first() =~~= toks.deep_view().skip(from as int + 1));
            assert(r@ =~= join_spaces(ts));
        }
        r
    }
}

/// Splits one client line into a [`Command`].
///
/// The line (its trailing line terminator already stripped) is split
/// on whitespace; the first token, upper-cased, becomes the verb and
/// the remaining tokens, rejoined with single spaces, become the
/// arguments.  A line without a single token is rejected.  Verb
/// legality is not checked here: that is the state machine's job.
///
/// Whitespace and upper-casing are ASCII by design ([`is_space`],
/// [`crate::text::to_upper`]): the protocol's verbs and separators
/// are ASCII, and anything beyond passes through untouched.
pub fn parse_command(line: &str) -> (r: Result<Command, CommandError>)
    ensures
        match r {
            Ok(cmd) => tokens(line@).len() > 0 && cmd.verb@ == upper_seq(tokens(line@)[0])
                && cmd.args@ == join_spaces(tokens(line@).drop_first()) && cmd.origin@ == line@,
            Err(e) => tokens(line@).len() == 0 && e == CommandError::InvalidCommand,
        },
{
    let toks = tokenize(line);
    if toks.len() == 0 {
        Err(CommandError::InvalidCommand)
    } else {
        let verb = upper_string(toks[0].as_str());
        let args = join_tokens(&toks, 1);
        proof {
            assert(toks.deep_view()[0] == toks@[0]@);
            assert(toks.deep_view().skip(1) =~~= tokens(line@).drop_first());
        }
        Ok(Command { verb, args, origin: line.to_owned() })
    }
}

} // verus!
