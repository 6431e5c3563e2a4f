use vstd::prelude::*;

use crate::text::{chars_vec, is_space, is_space_char, push_char};

verus! {

// `MAIL` and `RCPT` arguments are matched against the same lenient
// shapes the server has always accepted: somewhere in the argument
// text the keyword (`FROM:` or `TO:`, case-insensitive), then
// optional whitespace, then an address in angle brackets, and for
// `MAIL` an optional ` SIZE=<digits>` parameter right after the
// closing bracket.  The match starts at the leftmost position where
// the whole mandatory part fits; the address runs to the first `>`
// after the `<`.  Keyword case-insensitivity, whitespace and digits
// are ASCII by design, as the wire protocol's keywords are.

/// An ASCII decimal digit.
pub open spec fn is_digit(c: char) -> bool {
    '0' <= c && c <= '9'
}

/// Exec mirror of [`is_digit`].
fn is_digit_char(c: char) -> (r: bool)
    ensures
        r == is_digit(c),
{
    '0' <= c && c <= '9'
}

/// The numeric value of one decimal digit character.
pub open spec fn digit_val(c: char) -> int {
    if c == '0' {
        0
    } else if c == '1' {
        1
    } else if c == '2' {
        2
    } else if c == '3' {
        3
    } else if c == '4' {
        4
    } else if c == '5' {
        5
    } else if c == '6' {
        6
    } else if c == '7' {
        7
    } else if c == '8' {
        8
    } else {
        9
    }
}

/// Exec mirror of [`digit_val`].
fn digit_val_of(c: char) -> (r: usize)
    requires
        is_digit(c),
    ensures
        r == digit_val(c),
        r < 10,
{
    if c == '0' {
        0
    } else if c == '1' {
        1
    } else if c == '2' {
        2
    } else if c == '3' {
        3
    } else if c == '4' {
        4
    } else if c == '5' {
        5
    } else if c == '6' {
        6
    } else if c == '7' {
        7
    } else if c == '8' {
        8
    } else {
        9
    }
}

/// The number a digit string denotes, most significant digit first.
pub open spec fn digits_val(s: Seq<char>) -> nat
    decreases s.len(),
{
    if s.len() == 0 {
        0
    } else {
        digits_val(s.drop_last()) * 10 + digit_val(s.last()) as nat
    }
}

/// A longer digit string never denotes a smaller number.
proof fn lemma_digits_val_mono(s: Seq<char>, i: int)
    requires
        0 <= i <= s.len(),
    ensures
        digits_val(s.take(i)) <= digits_val(s),
    decreases s.len() - i,
{
    if i < s.len() {
        lemma_digits_val_mono(s, i + 1);
        assert(s.take(i + 1).drop_last() =~= s.take(i));
        assert(digits_val(s.take(i + 1)) == digits_val(s.take(i)) * 10 + digit_val(s[i]));
        assert(digits_val(s.take(i)) * 10 >= digits_val(s.take(i)));
    } else {
        assert(s.take(i) =~= s);
    }
}

/// The end of the whitespace run starting at `k`: the first position
/// at or after `k` that is not whitespace.
pub open spec fn space_run_end(t: Seq<char>, k: int) -> int
    decreases t.len() - k,
{
    if k < 0 || k >= t.len() || !is_space(t[k]) {
        k
    } else {
        space_run_end(t, k + 1)
    }
}

/// The end of the digit run starting at `k`.
pub open spec fn digit_run_end(t: Seq<char>, k: int) -> int
    decreases t.len() - k,
{
    if k < 0 || k >= t.len() || !is_digit(t[k]) {
        k
    } else {
        digit_run_end(t, k + 1)
    }
}

/// The first `>` at or after `k`, or the length of the text if there
/// is none.
pub open spec fn gt_pos(t: Seq<char>, k: int) -> int
    decreases t.len() - k,
{
    if k < 0 || k >= t.len() {
        t.len() as int
    } else if t[k] == '>' {
        k
    } else {
        gt_pos(t, k + 1)
    }
}

/// Every character of a digit run is a digit, and the run stays
/// inside the text.
pub proof fn lemma_digit_run_digits(t: Seq<char>, k: int)
    ensures
        forall|j: int| k <= j < digit_run_end(t, k) ==> is_digit(t[j]),
        0 <= k <= t.len() ==> k <= digit_run_end(t, k) <= t.len(),
    decreases t.len() - k,
{
    if 0 <= k < t.len() && is_digit(t[k]) {
        lemma_digit_run_digits(t, k + 1);
    }
}

/// Exec mirror of [`space_run_end`].
fn space_run_end_at(v: &Vec<char>, k: usize) -> (r: usize)
    requires
        k <= v@.len(),
    ensures
        r == space_run_end(v@, k as int),
        k <= r <= v@.len(),
    decreases v@.len() - k,
{
    if k < v.len() && is_space_char(v[k]) {
        space_run_end_at(v, k + 1)
    } else {
        k
    }
}

/// Exec mirror of [`digit_run_end`].
fn digit_run_end_at(v: &Vec<char>, k: usize) -> (r: usize)
    requires
        k <= v@.len(),
    ensures
        r == digit_run_end(v@, k as int),
        k <= r <= v@.len(),
    decreases v@.len() - k,
{
    if k < v.len() && is_digit_char(v[k]) {
        digit_run_end_at(v, k + 1)
    } else {
        k
    }
}

/// Exec mirror of [`gt_pos`].
fn gt_pos_at(v: &Vec<char>, k: usize) -> (r: usize)
    requires
        k <= v@.len(),
    ensures
        r == gt_pos(v@, k as int),
        k <= r <= v@.len(),
    decreases v@.len() - k,
{
    if k >= v.len() {
        v.len()
    } else if v[k] == '>' {
        k
    } else {
        gt_pos_at(v, k + 1)
    }
}

/// The characters of `v` between `a` and `b`, as an owned string.
fn string_of_range(v: &Vec<char>, a: usize, b: usize) -> (r: String)
    requires
        a <= b <= v@.len(),
    ensures
        r@ == v@.subrange(a as int, b as int),
{
    let mut r = String::new();
    let mut i = a;
    while i < b
        invariant
            a <= i <= b <= v@.len(),
            r@ == v@.subrange(a as int, i as int),
        decreases b - i,
    {
        push_char(&mut r, v[i]);
        i = i + 1;
        proof {
            assert(r@ =~= v@.subrange(a as int, i as int));
        }
    }
    r
}

/// The keyword `FROM:`, case-insensitive, standing at `i`.
pub open spec fn from_key_at(t: Seq<char>, i: int) -> bool {
    &&& 0 <= i
    &&& i + 5 <= t.len()
    &&& (t[i] == 'f' || t[i] == 'F')
    &&& (t[i + 1] == 'r' || t[i + 1] == 'R')
    &&& (t[i + 2] == 'o' || t[i + 2] == 'O')
    &&& (t[i + 3] == 'm' || t[i + 3] == 'M')
    &&& t[i + 4] == ':'
}

/// The mandatory part of the `MAIL` argument shape matches at `i`:
/// `FROM:`, optional whitespace, `<`, then a `>` somewhere after.
pub open spec fn mail_match_at(t: Seq<char>, i: int) -> bool {
    &&& from_key_at(t, i)
    &&& {
        let j = space_run_end(t, i + 5);
        &&& j < t.len()
        &&& t[j] == '<'
        &&& gt_pos(t, j + 1) < t.len()
    }
}

/// The captured sender address of a match at `i`: everything between
/// the `<` and the first `>` after it, possibly empty.
pub open spec fn mail_email_at(t: Seq<char>, i: int) -> Seq<char> {
    let j = space_run_end(t, i + 5);
    t.subrange(j + 1, gt_pos(t, j + 1))
}

/// Whether the optional ` SIZE=<digits>` parameter follows the
/// closing bracket of a match at `i`: at least one whitespace
/// character, the keyword `SIZE` (case-insensitive), `=`, and at
/// least one digit.
pub open spec fn mail_size_present(t: Seq<char>, i: int) -> bool {
    let j = space_run_end(t, i + 5);
    let g = gt_pos(t, j + 1);
    let w = space_run_end(t, g + 1);
    &&& w > g + 1
    &&& w + 5 < t.len()
    &&& (t[w] == 's' || t[w] == 'S')
    &&& (t[w + 1] == 'i' || t[w + 1] == 'I')
    &&& (t[w + 2] == 'z' || t[w + 2] == 'Z')
    &&& (t[w + 3] == 'e' || t[w + 3] == 'E')
    &&& t[w + 4] == '='
    &&& is_digit(t[w + 5])
}

/// The captured size digits of a match at `i`: the maximal digit run
/// after the `=`.
pub open spec fn mail_size_at(t: Seq<char>, i: int) -> Seq<char> {
    let j = space_run_end(t, i + 5);
    let g = gt_pos(t, j + 1);
    let w = space_run_end(t, g + 1);
    t.subrange(w + 5, digit_run_end(t, w + 5))
}

/// The leftmost position at or after `k` where the `MAIL` shape
/// matches, or the length of the text if there is none.
pub open spec fn mail_pos_from(t: Seq<char>, k: int) -> int
    decreases t.len() - k,
{
    if k < 0 || k >= t.len() {
        t.len() as int
    } else if mail_match_at(t, k) {
        k
    } else {
        mail_pos_from(t, k + 1)
    }
}

/// What matching a `MAIL` argument yields: nothing, or the sender
/// address and, when the parameter is present, its size digits, both
/// taken at the leftmost match.
pub open spec fn mail_capture(t: Seq<char>) -> Option<(Seq<char>, Option<Seq<char>>)> {
    let p = mail_pos_from(t, 0);
    if p < t.len() {
        Some(
            (
                mail_email_at(t, p),
                if mail_size_present(t, p) {
                    Some(mail_size_at(t, p))
                } else {
                    None
                },
            ),
        )
    } else {
        None
    }
}

/// Exec mirror of [`mail_match_at`].
fn mail_match_at_exec(v: &Vec<char>, i: usize) -> (r: bool)
    requires
        i <= v@.len(),
    ensures
        r == mail_match_at(v@, i as int),
{
    if v.len() - i < 5 {
        return false;
    }
    let c0 = v[i];
    let c1 = v[i + 1];
    let c2 = v[i + 2];
    let c3 = v[i + 3];
    if !((c0 == 'f' || c0 == 'F') && (c1 == 'r' || c1 == 'R') && (c2 == 'o' || c2 == 'O') && (c3
        == 'm' || c3 == 'M') && v[i + 4] == ':') {
        return false;
    }
    let j = space_run_end_at(v, i + 5);
    if j >= v.len() || v[j] != '<' {
        return false;
    }
    let g = gt_pos_at(v, j + 1);
    g < v.len()
}

/// The keyword `TO:`, case-insensitive, standing at `i`.
pub open spec fn to_key_at(t: Seq<char>, i: int) -> bool {
    &&& 0 <= i
    &&& i + 3 <= t.len()
    &&& (t[i] == 't' || t[i] == 'T')
    &&& (t[i + 1] == 'o' || t[i + 1] == 'O')
    &&& t[i + 2] == ':'
}

/// The `RCPT` argument shape matches at `i`: `TO:`, optional
/// whitespace, `<`, at least one non-`>` character, then `>`.
/// Unlike the sender capture, an empty recipient address does not
/// match.
pub open spec fn rcpt_match_at(t: Seq<char>, i: int) -> bool {
    &&& to_key_at(t, i)
    &&& {
        let j = space_run_end(t, i + 3);
        &&& j < t.len()
        &&& t[j] == '<'
        &&& j + 1 < t.len()
        &&& t[j + 1] != '>'
        &&& gt_pos(t, j + 1) < t.len()
    }
}

/// The captured recipient address of a match at `i`.
pub open spec fn rcpt_email_at(t: Seq<char>, i: int) -> Seq<char> {
    let j = space_run_end(t, i + 3);
    t.subrange(j + 1, gt_pos(t, j + 1))
}

/// The leftmost position at or after `k` where the `RCPT` shape
/// matches, or the length of the text if there is none.
pub open spec fn rcpt_pos_from(t: Seq<char>, k: int) -> int
    decreases t.len() - k,
{
    if k < 0 || k >= t.len() {
        t.len() as int
    } else if rcpt_match_at(t, k) {
        k
    } else {
        rcpt_pos_from(t, k + 1)
    }
}

/// What matching a `RCPT` argument yields: nothing, or the recipient
/// address taken at the leftmost match.
pub open spec fn rcpt_capture(t: Seq<char>) -> Option<Seq<char>> {
    let p = rcpt_pos_from(t, 0);
    if p < t.len() {
        Some(rcpt_email_at(t, p))
    } else {
        None
    }
}

/// Exec mirror of [`rcpt_match_at`].
fn rcpt_match_at_exec(v: &Vec<char>, i: usize) -> (r: bool)
    requires
        i <= v@.len(),
    ensures
        r == rcpt_match_at(v@, i as int),
{
    if v.len() - i < 3 {
        return false;
    }
    let c0 = v[i];
    let c1 = v[i + 1];
    if !((c0 == 't' || c0 == 'T') && (c1 == 'o' || c1 == 'O') && v[i + 2] == ':') {
        return false;
    }
    let j = space_run_end_at(v, i + 3);
    if j >= v.len() || v[j] != '<' {
        return false;
    }
    if j + 1 >= v.len() || v[j + 1] == '>' {
        return false;
    }
    let g = gt_pos_at(v, j + 1);
    g < v.len()
}

/// Matches a `MAIL` argument and hands back the captured sender
/// address and, if present, the announced size digits.
pub fn parse_mail_args(args: &str) -> (r: Option<(String, Option<String>)>)
    ensures
        match (r, mail_capture(args@)) {
            (Some((email, size)), Some((se, ss))) => email@ == se && match (size, ss) {
                (Some(d), Some(sd)) => d@ == sd,
                (None, None) => true,
                _ => false,
            },
            (None, None) => true,
            _ => false,
        },
{
    let v = chars_vec(args);
    let n = v.len();
    let mut i: usize = 0;
    while i < n
        invariant
            i <= n,
            n == v@.len(),
            v@ == args@,
            mail_pos_from(v@, 0) == mail_pos_from(v@, i as int),
        decreases n - i,
    {
        if mail_match_at_exec(&v, i) {
            let j = space_run_end_at(&v, i + 5);
            let g = gt_pos_at(&v, j + 1);
            let email = string_of_range(&v, j + 1, g);
            let w = space_run_end_at(&v, g + 1);
            let size: Option<String> = if w > g + 1 && n - w > 5 {
                let s0 = v[w];
                let s1 = v[w + 1];
                let s2 = v[w + 2];
                let s3 = v[w + 3];
                if (s0 == 's' || s0 == 'S') && (s1 == 'i' || s1 == 'I') && (s2 == 'z' || s2 == 'Z')
                    && (s3 == 'e' || s3 == 'E') && v[w + 4] == '=' && is_digit_char(v[w + 5]) {
                    let d = digit_run_end_at(&v, w + 5);
                    Some(string_of_range(&v, w + 5, d))
                } else {
                    None
                }
            } else {
                None
            };
            proof {
                assert(mail_pos_from(v@, i as int) == i);
            }
            return Some((email, size));
        }
        i = i + 1;
    }
    None
}

/// Matches a `RCPT` argument and hands back the captured recipient
/// address.
pub fn parse_rcpt_args(args: &str) -> (r: Option<String>)
    ensures
        match (r, rcpt_capture(args@)) {
            (Some(email), Some(se)) => email@ == se,
            (None, None) => true,
            _ => false,
        },
{
    let v = chars_vec(args);
    let n = v.len();
    let mut i: usize = 0;
    while i < n
        invariant
            i <= n,
            n == v@.len(),
            v@ == args@,
            rcpt_pos_from(v@, 0) == rcpt_pos_from(v@, i as int),
        decreases n - i,
    {
        if rcpt_match_at_exec(&v, i) {
            let j = space_run_end_at(&v, i + 3);
            let g = gt_pos_at(&v, j + 1);
            let email = string_of_range(&v, j + 1, g);
            proof {
                assert(rcpt_pos_from(v@, i as int) == i);
            }
            return Some(email);
        }
        i = i + 1;
    }
    None
}

/// Parses a digit string into a machine word, refusing values that
/// do not fit.
pub fn parse_decimal(digits: &str) -> (r: Option<usize>)
    requires
        forall|j: int| 0 <= j < digits@.len() ==> is_digit(digits@[j]),
    ensures
        match r {
            Some(value) => value == digits_val(digits@) && digits_val(digits@) <= usize::MAX,
            None => digits_val(digits@) > usize::MAX,
        },
{
    let v = chars_vec(digits);
    let n = v.len();
    let mut acc: usize = 0;
    let mut i: usize = 0;
    while i < n
        invariant
            i <= n,
            n == v@.len(),
            v@ == digits@,
            forall|j: int| 0 <= j < digits@.len() ==> is_digit(digits@[j]),
            acc == digits_val(digits@.take(i as int)),
        decreases n - i,
    {
        let d = digit_val_of(v[i]);
        if acc > (usize::MAX - d) / 10 {
            proof {
                assert(acc * 10 + d > usize::MAX) by (nonlinear_arith)
                    requires
                        acc > (usize::MAX - d) / 10,
                        d < 10,
                ;
                assert(digits@.take(i + 1).drop_last() =~= digits@.take(i as int));
                assert(digits_val(digits@.take(i + 1)) > usize::MAX);
                lemma_digits_val_mono(digits@, i + 1);
            }
            return None;
        }
        proof {
            assert(acc * 10 + d <= usize::MAX) by (nonlinear_arith)
                requires
                    acc <= (usize::MAX - d) / 10,
                    d < 10,
            ;
            assert(digits@.take(i + 1).drop_last() =~= digits@.take(i as int));
        }
        acc = acc * 10 + d;
        i = i + 1;
    }
    proof {
        assert(digits@.take(n as int) =~= digits@);
    }
    Some(acc)
}

} // verus!
