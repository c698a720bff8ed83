//! Delivery receipt states and the textual receipt parser.
//!
//! A textual delivery receipt is a whitespace-separated list of `key:value`
//! tokens inside the `short_message` body.  The parser recognises the first
//! `id:` token and the first `stat:` token with a non-empty value; the stat
//! value is matched case-insensitively against the conventional receipt
//! status names.

use vstd::prelude::*;
use vstd::multiset::Multiset;
use vstd::string::StrSliceExecFns;

verus! {

/// The message state carried by a delivery receipt, mirroring the SMPP
/// `message_state` values.  `Other` carries a vendor-specific code.
#[derive(Clone, Copy, Debug, PartialEq, Eq, Structural)]
pub enum DlrState {
    Scheduled,
    Enroute,
    Delivered,
    Expired,
    Deleted,
    Undeliverable,
    Accepted,
    Unknown,
    Rejected,
    Skipped,
    Other(u8),
}

/// Whitespace for token separation: the Unicode white-space characters, as
/// the standard library's whitespace splitting understands them.
pub open spec fn is_space_char(c: char) -> bool {
    ||| c == ' ' || c == '\t' || c == '\n' || c == '\r' || c == '\u{b}' || c == '\u{c}'
    ||| c == '\u{85}' || c == '\u{a0}' || c == '\u{1680}'
    ||| ('\u{2000}' <= c && c <= '\u{200a}')
    ||| c == '\u{2028}' || c == '\u{2029}' || c == '\u{202f}' || c == '\u{205f}'
    ||| c == '\u{3000}'
}

fn is_space(c: char) -> (r: bool)
    ensures
        r == is_space_char(c),
{
    c == ' ' || c == '\t' || c == '\n' || c == '\r' || c == '\u{b}' || c == '\u{c}'
        || c == '\u{85}' || c == '\u{a0}' || c == '\u{1680}'
        || ('\u{2000}' <= c && c <= '\u{200a}')
        || c == '\u{2028}' || c == '\u{2029}' || c == '\u{202f}' || c == '\u{205f}'
        || c == '\u{3000}'
}

/// Length of the leading run of non-whitespace characters.
pub open spec fn run_len(s: Seq<char>) -> nat
    decreases s.len(),
{
    if s.len() == 0 || is_space_char(s[0]) {
        0
    } else {
        1 + run_len(s.drop_first())
    }
}

proof fn lemma_run_len_le(s: Seq<char>)
    ensures
        run_len(s) <= s.len(),
    decreases s.len(),
{
    if s.len() > 0 && !is_space_char(s[0]) {
        lemma_run_len_le(s.drop_first());
    }
}

/// The leading run is exactly the stretch up to the first whitespace
/// character (or the end).
proof fn lemma_run_len_of(s: Seq<char>, m: int)
    requires
        0 <= m <= s.len(),
        forall|k: int| 0 <= k < m ==> !is_space_char(#[trigger] s[k]),
        m == s.len() || is_space_char(s[m]),
    ensures
        run_len(s) == m,
    decreases m,
{
    if m == 0 {
    } else {
        assert(!is_space_char(s[0]));
        let t = s.drop_first();
        assert forall|k: int| 0 <= k < m - 1 implies !is_space_char(#[trigger] t[k]) by {
            assert(t[k] == s[k + 1]);
        }
        if m < s.len() {
            assert(t[m - 1] == s[m]);
        }
        lemma_run_len_of(t, m - 1);
    }
}

/// The whitespace-separated tokens of a character sequence, in order.
pub open spec fn tokens(s: Seq<char>) -> Seq<Seq<char>>
    decreases s.len(),
    via tokens_decreases
{
    if s.len() == 0 {
        Seq::empty()
    } else if is_space_char(s[0]) {
        tokens(s.drop_first())
    } else {
        seq![s.take(run_len(s) as int)] + tokens(s.skip(run_len(s) as int))
    }
}

#[via_fn]
proof fn tokens_decreases(s: Seq<char>) {
    if s.len() > 0 && !is_space_char(s[0]) {
        lemma_run_len_le(s);
        assert(run_len(s) == 1 + run_len(s.drop_first()));
    }
}

/// The views of a vector of owned tokens.
pub open spec fn token_views(toks: Seq<String>) -> Seq<Seq<char>> {
    toks.map(|i: int, t: String| t@)
}

/// Split a string on whitespace into its tokens.
pub fn tokenize(s: &str) -> (toks: Vec<String>)
    ensures
        token_views(toks@) == tokens(s@),
{
    let n = s.unicode_len();
    let mut out: Vec<String> = Vec::new();
    let mut i: usize = 0;
    proof {
        assert(s@.skip(0) =~= s@);
    }
    while i < n
        invariant
            i <= n,
            n == s@.len(),
            tokens(s@) == token_views(out@) + tokens(s@.skip(i as int)),
        decreases n - i,
    {
        let c = s.get_char(i);
        if is_space(c) {
            proof {
                let rest = s@.skip(i as int);
                assert(rest.drop_first() =~= s@.skip(i as int + 1));
            }
            i += 1;
        } else {
            let mut j: usize = i + 1;
            while j < n
                invariant
                    i < j <= n,
                    n == s@.len(),
                    forall|k: int| i <= k < j ==> !is_space_char(#[trigger] s@[k]),
                ensures
                    i < j <= n,
                    forall|k: int| i <= k < j ==> !is_space_char(#[trigger] s@[k]),
                    j == n || is_space_char(s@[j as int]),
                decreases n - j,
            {
                if is_space(s.get_char(j)) {
                    break ;
                }
                j += 1;
            }
            let tok = s.substring_char(i, j);
            let ghost rest = s@.skip(i as int);
            proof {
                assert forall|k: int| 0 <= k < j - i implies !is_space_char(#[trigger] rest[k]) by {
                    assert(rest[k] == s@[i + k]);
                }
                if j < n {
                    assert(rest[j - i] == s@[j as int]);
                }
                lemma_run_len_of(rest, j - i);
                assert(rest.take(j - i) =~= s@.subrange(i as int, j as int));
                assert(rest.skip(j - i) =~= s@.skip(j as int));
                assert(tokens(rest) == seq![s@.subrange(i as int, j as int)] + tokens(
                    s@.skip(j as int),
                ));
            }
            let ghost old_out = out@;
            out.push(tok.to_owned());
            proof {
                assert(token_views(out@) =~= token_views(old_out) + seq![
                    s@.subrange(i as int, j as int),
                ]);
                assert(token_views(out@) + tokens(s@.skip(j as int)) =~= (token_views(old_out)
                    + tokens(s@.skip(i as int))));
            }
            i = j;
        }
    }
    proof {
        assert(s@.skip(n as int) =~= Seq::<char>::empty());
        assert(token_views(out@) =~= token_views(out@) + tokens(s@.skip(n as int)));
    }
    out
}

proof fn lemma_run_len_chars(s: Seq<char>)
    ensures
        forall|k: int| 0 <= k < run_len(s) ==> !is_space_char(#[trigger] s[k]),
        run_len(s) < s.len() ==> is_space_char(s[run_len(s) as int]),
    decreases s.len(),
{
    lemma_run_len_le(s);
    if s.len() > 0 && !is_space_char(s[0]) {
        let t = s.drop_first();
        lemma_run_len_chars(t);
        lemma_run_len_le(t);
        assert forall|k: int| 0 <= k < run_len(s) implies !is_space_char(#[trigger] s[k]) by {
            if k > 0 {
                assert(t[k - 1] == s[k]);
            }
        }
        if run_len(s) < s.len() {
            assert(t[run_len(t) as int] == s[run_len(s) as int]);
        }
    }
}

/// Tokenization ignores leading whitespace.
pub proof fn lemma_tokens_leading_ws(w: Seq<char>, s: Seq<char>)
    requires
        forall|k: int| 0 <= k < w.len() ==> is_space_char(#[trigger] w[k]),
    ensures
        tokens(w + s) == tokens(s),
    decreases w.len(),
{
    if w.len() == 0 {
        assert(w + s =~= s);
    } else {
        assert((w + s)[0] == w[0]);
        assert((w + s).drop_first() =~= w.drop_first() + s);
        lemma_tokens_leading_ws(w.drop_first(), s);
    }
}

/// Tokenization ignores trailing whitespace.
pub proof fn lemma_tokens_trailing_ws(s: Seq<char>, w: Seq<char>)
    requires
        forall|k: int| 0 <= k < w.len() ==> is_space_char(#[trigger] w[k]),
    ensures
        tokens(s + w) == tokens(s),
    decreases s.len(),
{
    if s.len() == 0 {
        assert(s + w =~= w);
        assert(w =~= w + Seq::<char>::empty());
        lemma_tokens_leading_ws(w, Seq::<char>::empty());
    } else if is_space_char(s[0]) {
        assert((s + w)[0] == s[0]);
        assert((s + w).drop_first() =~= s.drop_first() + w);
        lemma_tokens_trailing_ws(s.drop_first(), w);
    } else {
        let m = run_len(s) as int;
        lemma_run_len_le(s);
        lemma_run_len_chars(s);
        assert forall|k: int| 0 <= k < m implies !is_space_char(#[trigger] (s + w)[k]) by {
            assert((s + w)[k] == s[k]);
        }
        if m < s.len() {
            assert((s + w)[m] == s[m]);
        } else if w.len() > 0 {
            assert((s + w)[m] == w[0]);
        }
        lemma_run_len_of(s + w, m);
        assert((s + w)[0] == s[0]);
        assert((s + w).take(m) =~= s.take(m));
        assert((s + w).skip(m) =~= s.skip(m) + w);
        lemma_tokens_trailing_ws(s.skip(m), w);
    }
}

/// The textual parser is invariant to leading and trailing whitespace: the
/// padded body parses to exactly what the body alone parses to.
pub proof fn lemma_parse_ws_invariant(w1: Seq<char>, s: Seq<char>, w2: Seq<char>)
    requires
        forall|k: int| 0 <= k < w1.len() ==> is_space_char(#[trigger] w1[k]),
        forall|k: int| 0 <= k < w2.len() ==> is_space_char(#[trigger] w2[k]),
    ensures
        parse_dlr_view(w1 + s + w2) == parse_dlr_view(s),
{
    lemma_tokens_trailing_ws(s, w2);
    lemma_tokens_leading_ws(w1, s + w2);
    assert(w1 + s + w2 =~= w1 + (s + w2));
}

/// The value of a `key:`-prefixed token, when the value is non-empty.
pub open spec fn token_value(t: Seq<char>, p: Seq<char>) -> Option<Seq<char>> {
    if p.len() < t.len() && t.take(p.len() as int) == p {
        Option::Some(t.skip(p.len() as int))
    } else {
        Option::None
    }
}

/// The value of the first token carrying the given prefix with a non-empty
/// value.
pub open spec fn first_value(toks: Seq<Seq<char>>, p: Seq<char>) -> Option<Seq<char>>
    decreases toks.len(),
{
    if toks.len() == 0 {
        Option::None
    } else if token_value(toks[0], p) is Some {
        token_value(toks[0], p)
    } else {
        first_value(toks.drop_first(), p)
    }
}

/// ASCII upper-casing of one character.
pub open spec fn to_upper_char(c: char) -> char {
    if 'a' <= c && c <= 'z' {
        ((c as u8) - 32) as char
    } else {
        c
    }
}

/// ASCII upper-casing of a character sequence.
pub open spec fn to_upper_seq(s: Seq<char>) -> Seq<char> {
    Seq::new(s.len(), |i: int| to_upper_char(s[i]))
}

/// The receipt state a `stat:` value maps to, after upper-casing: the
/// conventional seven-letter receipt codes and their long forms; anything
/// else, including a missing value, maps to `Unknown`.
pub open spec fn stat_to_state(st: Seq<char>) -> DlrState {
    let u = to_upper_seq(st);
    if u == "DELIVRD"@ || u == "DELIVERED"@ {
        DlrState::Delivered
    } else if u == "ENROUTE"@ {
        DlrState::Enroute
    } else if u == "EXPIRED"@ {
        DlrState::Expired
    } else if u == "DELETED"@ {
        DlrState::Deleted
    } else if u == "UNDELIV"@ || u == "UNDELIVERABLE"@ {
        DlrState::Undeliverable
    } else if u == "ACCEPTD"@ || u == "ACCEPTED"@ {
        DlrState::Accepted
    } else if u == "REJECTD"@ || u == "REJECTED"@ {
        DlrState::Rejected
    } else {
        DlrState::Unknown
    }
}

/// What the textual parser extracts from a sequence of tokens: the first
/// `id:` value, if any, with the state mapped from the first `stat:` value.
pub open spec fn parse_tokens(toks: Seq<Seq<char>>) -> Option<(Seq<char>, DlrState)> {
    match first_value(toks, "id:"@) {
        Option::Some(id) => {
            let st = match first_value(toks, "stat:"@) {
                Option::Some(stat) => stat_to_state(stat),
                Option::None => DlrState::Unknown,
            };
            Option::Some((id, st))
        },
        Option::None => Option::None,
    }
}

/// What the textual parser extracts from a receipt body.
pub open spec fn parse_dlr_view(s: Seq<char>) -> Option<(Seq<char>, DlrState)> {
    parse_tokens(tokens(s))
}

fn to_upper(c: char) -> (r: char)
    ensures
        r == to_upper_char(c),
{
    if 'a' <= c && c <= 'z' {
        ((c as u8) - 32) as char
    } else {
        c
    }
}

/// Case-insensitive comparison of a token against an (upper-case) pattern.
fn upper_matches(t: &str, pat: &str) -> (r: bool)
    ensures
        r == (to_upper_seq(t@) == pat@),
{
    let tn = t.unicode_len();
    let pn = pat.unicode_len();
    if tn != pn {
        proof {
            assert(to_upper_seq(t@).len() != pat@.len());
        }
        return false;
    }
    let mut i: usize = 0;
    while i < tn
        invariant
            i <= tn,
            tn == t@.len(),
            tn == pat@.len(),
            forall|k: int| 0 <= k < i ==> to_upper_char(#[trigger] t@[k]) == pat@[k],
        decreases tn - i,
    {
        if to_upper(t.get_char(i)) != pat.get_char(i) {
            proof {
                assert(to_upper_seq(t@)[i as int] != pat@[i as int]);
            }
            return false;
        }
        i += 1;
    }
    proof {
        assert(to_upper_seq(t@) =~= pat@);
    }
    true
}

/// Map a `stat:` value to its receipt state, matching case-insensitively.
pub fn map_stat_to_state(stat: &str) -> (r: DlrState)
    ensures
        r == stat_to_state(stat@),
{
    if upper_matches(stat, "DELIVRD") || upper_matches(stat, "DELIVERED") {
        DlrState::Delivered
    } else if upper_matches(stat, "ENROUTE") {
        DlrState::Enroute
    } else if upper_matches(stat, "EXPIRED") {
        DlrState::Expired
    } else if upper_matches(stat, "DELETED") {
        DlrState::Deleted
    } else if upper_matches(stat, "UNDELIV") || upper_matches(stat, "UNDELIVERABLE") {
        DlrState::Undeliverable
    } else if upper_matches(stat, "ACCEPTD") || upper_matches(stat, "ACCEPTED") {
        DlrState::Accepted
    } else if upper_matches(stat, "REJECTD") || upper_matches(stat, "REJECTED") {
        DlrState::Rejected
    } else {
        DlrState::Unknown
    }
}

/// The non-empty value behind a prefix of a token, or `None`.
fn token_value_exec(t: &str, p: &str) -> (r: Option<String>)
    ensures
        r matches Some(v) ==> token_value(t@, p@) == Option::Some(v@),
        r is None ==> token_value(t@, p@) is None,
{
    let tn = t.unicode_len();
    let pn = p.unicode_len();
    if pn >= tn {
        return None;
    }
    let mut i: usize = 0;
    while i < pn
        invariant
            i <= pn,
            pn < tn,
            tn == t@.len(),
            pn == p@.len(),
            forall|k: int| 0 <= k < i ==> t@[k] == p@[k],
        decreases pn - i,
    {
        if t.get_char(i) != p.get_char(i) {
            proof {
                assert(t@.take(pn as int)[i as int] != p@[i as int]);
            }
            return None;
        }
        i += 1;
    }
    proof {
        assert(t@.take(pn as int) =~= p@);
    }
    let v = t.substring_char(pn, tn);
    proof {
        assert(v@ =~= t@.skip(pn as int));
    }
    Some(v.to_owned())
}

/// The first token carrying a prefix wins: whatever follows a match cannot
/// change the extracted value.
pub proof fn lemma_first_match_wins(toks: Seq<Seq<char>>, p: Seq<char>, i: int)
    requires
        0 <= i < toks.len(),
        token_value(toks[i], p) is Some,
        forall|j: int| 0 <= j < i ==> token_value(#[trigger] toks[j], p) is None,
    ensures
        first_value(toks, p) == token_value(toks[i], p),
    decreases i,
{
    if i == 0 {
    } else {
        let t = toks.drop_first();
        assert forall|j: int| 0 <= j < i - 1 implies token_value(#[trigger] t[j], p) is None by {
            assert(t[j] == toks[j + 1]);
        }
        assert(t[i - 1] == toks[i]);
        lemma_first_match_wins(t, p, i - 1);
    }
}

/// For a body of two tokens of which at most one carries `id:` and at most
/// one carries `stat:`, the order of the tokens does not change what is
/// parsed.
pub proof fn lemma_parse_token_order(t1: Seq<char>, t2: Seq<char>)
    requires
        !(token_value(t1, "id:"@) is Some && token_value(t2, "id:"@) is Some),
        !(token_value(t1, "stat:"@) is Some && token_value(t2, "stat:"@) is Some),
    ensures
        parse_tokens(seq![t1, t2]) == parse_tokens(seq![t2, t1]),
{
    let a = seq![t1, t2];
    let b = seq![t2, t1];
    assert(a.drop_first() =~= seq![t2]);
    assert(b.drop_first() =~= seq![t1]);
    assert(seq![t2].drop_first() =~= Seq::<Seq<char>>::empty());
    assert(seq![t1].drop_first() =~= Seq::<Seq<char>>::empty());
    assert forall|p: Seq<char>|
        !(token_value(t1, p) is Some && token_value(t2, p) is Some) implies #[trigger] first_value(
        a,
        p,
    ) == first_value(b, p) by {
        if token_value(t1, p) is Some {
            assert(first_value(a, p) == token_value(t1, p));
            assert(first_value(b, p) == first_value(seq![t1], p));
        } else if token_value(t2, p) is Some {
            assert(first_value(a, p) == first_value(seq![t2], p));
            assert(first_value(b, p) == token_value(t2, p));
        } else {
            assert(first_value(a, p) == first_value(seq![t2], p));
            assert(first_value(b, p) == first_value(seq![t1], p));
        }
    }
    assert(first_value(a, "id:"@) == first_value(b, "id:"@));
    assert(first_value(a, "stat:"@) == first_value(b, "stat:"@));
}

/// No two positions of the token sequence carry the prefix with a
/// non-empty value.
pub open spec fn at_most_one_match(toks: Seq<Seq<char>>, p: Seq<char>) -> bool {
    forall|i: int, j: int|
        0 <= i < toks.len() && 0 <= j < toks.len() && (#[trigger] token_value(toks[i], p))
            is Some && (#[trigger] token_value(toks[j], p)) is Some ==> i == j
}

/// At most one token of this multiset, counting multiplicity, carries the
/// prefix with a non-empty value.
pub open spec fn at_most_one_match_in(m: Multiset<Seq<char>>, p: Seq<char>) -> bool {
    &&& forall|t: Seq<char>| (#[trigger] token_value(t, p)) is Some ==> m.count(t) <= 1
    &&& forall|t1: Seq<char>, t2: Seq<char>|
        (#[trigger] token_value(t1, p)) is Some && (#[trigger] token_value(t2, p)) is Some
            && m.count(t1) > 0 && m.count(t2) > 0 ==> t1 == t2
}

proof fn lemma_duplicate_count(toks: Seq<Seq<char>>, a: int, b: int)
    requires
        0 <= a < b < toks.len(),
        toks[a] == toks[b],
    ensures
        toks.to_multiset().count(toks[a]) >= 2,
{
    broadcast use vstd::seq_lib::group_to_multiset_ensures;
    broadcast use vstd::multiset::group_multiset_axioms;

    let s0 = toks.subrange(0, b);
    let s1 = toks.subrange(b, toks.len() as int);
    assert(toks =~= s0 + s1);
    vstd::seq_lib::lemma_multiset_commutative(s0, s1);
    assert(s0[a] == toks[a]);
    assert(s0.contains(toks[a]));
    assert(s1[0] == toks[b]);
    assert(s1.contains(toks[b]));
}

proof fn lemma_seq_at_most_one(toks: Seq<Seq<char>>, p: Seq<char>)
    requires
        at_most_one_match_in(toks.to_multiset(), p),
    ensures
        at_most_one_match(toks, p),
{
    broadcast use vstd::seq_lib::group_to_multiset_ensures;

    assert forall|i: int, j: int|
        0 <= i < toks.len() && 0 <= j < toks.len() && (#[trigger] token_value(toks[i], p))
            is Some && (#[trigger] token_value(toks[j], p)) is Some implies i == j by {
        if i != j {
            if toks[i] == toks[j] {
                if i < j {
                    lemma_duplicate_count(toks, i, j);
                } else {
                    lemma_duplicate_count(toks, j, i);
                }
            } else {
                assert(toks.contains(toks[i]));
                assert(toks.contains(toks[j]));
            }
        }
    }
}

proof fn lemma_first_value_some_iff(toks: Seq<Seq<char>>, p: Seq<char>)
    ensures
        (first_value(toks, p) is Some) <==> (exists|i: int|
            0 <= i < toks.len() && (#[trigger] token_value(toks[i], p)) is Some),
    decreases toks.len(),
{
    if toks.len() > 0 {
        let rest = toks.drop_first();
        lemma_first_value_some_iff(rest, p);
        if token_value(toks[0], p) is Some {
        } else {
            assert forall|i: int|
                0 <= i < toks.len() && (#[trigger] token_value(toks[i], p))
                    is Some implies exists|j: int|
                0 <= j < rest.len() && (#[trigger] token_value(rest[j], p)) is Some by {
                assert(rest[i - 1] == toks[i]);
            }
            assert forall|j: int|
                0 <= j < rest.len() && (#[trigger] token_value(rest[j], p))
                    is Some implies exists|i: int|
                0 <= i < toks.len() && (#[trigger] token_value(toks[i], p)) is Some by {
                assert(toks[j + 1] == rest[j]);
            }
        }
    }
}

proof fn lemma_first_value_determined(toks: Seq<Seq<char>>, p: Seq<char>, i: int)
    requires
        at_most_one_match(toks, p),
        0 <= i < toks.len(),
        token_value(toks[i], p) is Some,
    ensures
        first_value(toks, p) == token_value(toks[i], p),
{
    assert forall|j: int| 0 <= j < i implies token_value(#[trigger] toks[j], p) is None by {
        if token_value(toks[j], p) is Some {
            assert(j == i);
        }
    }
    lemma_first_match_wins(toks, p, i);
}

proof fn lemma_first_value_same_multiset(toks1: Seq<Seq<char>>, toks2: Seq<Seq<char>>, p: Seq<char>)
    requires
        toks1.to_multiset() == toks2.to_multiset(),
        at_most_one_match_in(toks1.to_multiset(), p),
    ensures
        first_value(toks1, p) == first_value(toks2, p),
{
    broadcast use vstd::seq_lib::group_to_multiset_ensures;

    lemma_seq_at_most_one(toks1, p);
    lemma_seq_at_most_one(toks2, p);
    lemma_first_value_some_iff(toks1, p);
    lemma_first_value_some_iff(toks2, p);
    if first_value(toks1, p) is Some {
        let i = choose|i: int|
            0 <= i < toks1.len() && (#[trigger] token_value(toks1[i], p)) is Some;
        lemma_first_value_determined(toks1, p, i);
        let t = toks1[i];
        assert(toks1.contains(t));
        assert(toks2.contains(t));
        let j = choose|j: int| 0 <= j < toks2.len() && toks2[j] == t;
        lemma_first_value_determined(toks2, p, j);
    } else {
        if first_value(toks2, p) is Some {
            let j = choose|j: int|
                0 <= j < toks2.len() && (#[trigger] token_value(toks2[j], p)) is Some;
            let t = toks2[j];
            assert(toks2.contains(t));
            assert(toks1.contains(t));
            let i = choose|i: int| 0 <= i < toks1.len() && toks1[i] == t;
            assert(token_value(toks1[i], p) is Some);
        }
    }
}

/// Token order does not matter: two bodies holding the same multiset of
/// tokens, of which at most one carries `id:` and at most one carries
/// `stat:` (with a non-empty value), parse to the same result.
pub proof fn lemma_parse_same_token_multiset(s1: Seq<char>, s2: Seq<char>)
    requires
        tokens(s1).to_multiset() == tokens(s2).to_multiset(),
        at_most_one_match_in(tokens(s1).to_multiset(), "id:"@),
        at_most_one_match_in(tokens(s1).to_multiset(), "stat:"@),
    ensures
        parse_dlr_view(s1) == parse_dlr_view(s2),
{
    lemma_first_value_same_multiset(tokens(s1), tokens(s2), "id:"@);
    lemma_first_value_same_multiset(tokens(s1), tokens(s2), "stat:"@);
}

proof fn lemma_first_value_step(toks: Seq<Seq<char>>, p: Seq<char>, i: int)
    requires
        0 <= i < toks.len(),
    ensures
        token_value(toks[i], p) is Some ==> first_value(toks.skip(i), p) == token_value(
            toks[i],
            p,
        ),
        token_value(toks[i], p) is None ==> first_value(toks.skip(i), p) == first_value(
            toks.skip(i + 1),
            p,
        ),
{
    assert(toks.skip(i)[0] == toks[i]);
    assert(toks.skip(i).drop_first() =~= toks.skip(i + 1));
}

/// Whether a receipt state counts as failed for the coarse classification.
pub open spec fn state_failed(s: DlrState) -> bool {
    s is Undeliverable || s is Rejected || s is Expired || s is Deleted
}

/// The coarse classification of a receipt state: delivered, failed, or
/// neither.
pub fn classify_state(s: DlrState) -> (r: (bool, bool))
    ensures
        r.0 == (s is Delivered),
        r.1 == state_failed(s),
{
    let delivered = matches!(s, DlrState::Delivered);
    let failed = matches!(
        s,
        DlrState::Undeliverable | DlrState::Rejected | DlrState::Expired | DlrState::Deleted
    );
    (delivered, failed)
}

/// The canonical `stat:` token value for a receipt state.
pub open spec fn canonical_stat(st: DlrState) -> Seq<char> {
    match st {
        DlrState::Delivered => "DELIVRD"@,
        DlrState::Enroute => "ENROUTE"@,
        DlrState::Expired => "EXPIRED"@,
        DlrState::Deleted => "DELETED"@,
        DlrState::Undeliverable => "UNDELIV"@,
        DlrState::Accepted => "ACCEPTD"@,
        DlrState::Rejected => "REJECTD"@,
        _ => "UNKNOWN"@,
    }
}

/// The states the textual parser can produce.
pub open spec fn parseable_state(st: DlrState) -> bool {
    ||| st is Delivered
    ||| st is Enroute
    ||| st is Expired
    ||| st is Deleted
    ||| st is Undeliverable
    ||| st is Accepted
    ||| st is Rejected
    ||| st is Unknown
}

/// A canonical receipt body for an id and a state.
pub open spec fn render_dlr(id: Seq<char>, st: DlrState) -> Seq<char> {
    "id:"@ + id + " "@ + "stat:"@ + canonical_stat(st)
}

proof fn lemma_canonical_stat_chars(st: DlrState)
    requires
        parseable_state(st),
    ensures
        canonical_stat(st).len() == 7,
        forall|k: int| 0 <= k < 7 ==> !is_space_char(#[trigger] canonical_stat(st)[k]),
        to_upper_seq(canonical_stat(st)) == canonical_stat(st),
        stat_to_state(canonical_stat(st)) == st,
{
    reveal_strlit("DELIVRD");
    reveal_strlit("DELIVERED");
    reveal_strlit("ENROUTE");
    reveal_strlit("EXPIRED");
    reveal_strlit("DELETED");
    reveal_strlit("UNDELIV");
    reveal_strlit("UNDELIVERABLE");
    reveal_strlit("ACCEPTD");
    reveal_strlit("ACCEPTED");
    reveal_strlit("REJECTD");
    reveal_strlit("REJECTED");
    reveal_strlit("UNKNOWN");
    let c = canonical_stat(st);
    assert(to_upper_seq(c) =~= c);
    let u = to_upper_seq(c);
    match st {
        DlrState::Delivered => {},
        DlrState::Enroute => {
            assert(u[0] == 'E' && "DELIVRD"@[0] == 'D');
        },
        DlrState::Expired => {
            assert(u[0] == 'E' && "DELIVRD"@[0] == 'D');
            assert(u[1] == 'X' && "ENROUTE"@[1] == 'N');
        },
        DlrState::Deleted => {
            assert(u[3] == 'E' && "DELIVRD"@[3] == 'I');
            assert(u[0] == 'D' && "ENROUTE"@[0] == 'E' && "EXPIRED"@[0] == 'E');
        },
        DlrState::Undeliverable => {
            assert(u[0] == 'U');
            assert("DELIVRD"@[0] == 'D' && "ENROUTE"@[0] == 'E' && "EXPIRED"@[0] == 'E'
                && "DELETED"@[0] == 'D');
        },
        DlrState::Accepted => {
            assert(u[0] == 'A');
            assert("DELIVRD"@[0] == 'D' && "ENROUTE"@[0] == 'E' && "EXPIRED"@[0] == 'E'
                && "DELETED"@[0] == 'D' && "UNDELIV"@[0] == 'U');
        },
        DlrState::Rejected => {
            assert(u[0] == 'R');
            assert("DELIVRD"@[0] == 'D' && "ENROUTE"@[0] == 'E' && "EXPIRED"@[0] == 'E'
                && "DELETED"@[0] == 'D' && "UNDELIV"@[0] == 'U' && "ACCEPTD"@[0] == 'A');
        },
        _ => {
            assert(u[0] == 'U' && u[2] == 'K');
            assert("DELIVRD"@[0] == 'D' && "ENROUTE"@[0] == 'E' && "EXPIRED"@[0] == 'E'
                && "DELETED"@[0] == 'D' && "ACCEPTD"@[0] == 'A' && "REJECTD"@[0] == 'R');
            assert("UNDELIV"@[2] == 'D');
        },
    }
}

/// Re-parsing a canonical rendering of a parse result yields the result
/// again: the parser is idempotent through its canonical form.
pub proof fn lemma_parse_render_round_trip(id: Seq<char>, st: DlrState)
    requires
        id.len() > 0,
        forall|k: int| 0 <= k < id.len() ==> !is_space_char(#[trigger] id[k]),
        parseable_state(st),
    ensures
        parse_dlr_view(render_dlr(id, st)) == Option::Some((id, st)),
{
    reveal_strlit("id:");
    reveal_strlit("stat:");
    reveal_strlit(" ");
    lemma_canonical_stat_chars(st);
    let tok1 = "id:"@ + id;
    let tok2 = "stat:"@ + canonical_stat(st);
    let full = render_dlr(id, st);
    let m = tok1.len() as int;
    assert(!is_space_char('i') && !is_space_char('d') && !is_space_char(':'));
    assert(!is_space_char('s') && !is_space_char('t') && !is_space_char('a'));
    assert(is_space_char(' '));
    assert forall|k: int| 0 <= k < m implies !is_space_char(#[trigger] full[k]) by {
        assert(full[k] == tok1[k]);
        if k < 3 {
            assert(tok1[k] == "id:"@[k]);
        } else {
            assert(tok1[k] == id[k - 3]);
        }
    }
    assert(full[m] == " "@[0]);
    lemma_run_len_of(full, m);
    assert(full[0] == tok1[0]);
    assert(!is_space_char(full[0]));
    let rest = full.skip(m);
    assert(rest[0] == ' ');
    assert(rest.drop_first() =~= tok2);
    assert forall|k: int| 0 <= k < tok2.len() implies !is_space_char(#[trigger] tok2[k]) by {
        if k < 5 {
            assert(tok2[k] == "stat:"@[k]);
        } else {
            assert(tok2[k] == canonical_stat(st)[k - 5]);
        }
    }
    lemma_run_len_of(tok2, tok2.len() as int);
    assert(tok2.take(tok2.len() as int) =~= tok2);
    assert(tok2.skip(tok2.len() as int) =~= Seq::<char>::empty());
    assert(tokens(tok2) == seq![tok2.take(tok2.len() as int)] + tokens(
        tok2.skip(tok2.len() as int),
    ));
    assert(tokens(tok2) =~~= seq![tok2]);
    assert(tokens(rest) == tokens(tok2));
    assert(full.take(m) =~= tok1);
    assert(tokens(full) == seq![full.take(m)] + tokens(full.skip(m)));
    assert(tokens(full) =~~= seq![tok1, tok2]);

    // The first token yields the id and no stat; the second yields the stat.
    assert(tok1.take(3) =~= "id:"@);
    assert(tok1.skip(3) =~= id);
    assert(token_value(tok1, "id:"@) == Option::Some(id));
    assert(tok2.take(5) =~= "stat:"@);
    assert(tok2.skip(5) =~= canonical_stat(st));
    assert(token_value(tok2, "stat:"@) == Option::Some(canonical_stat(st)));
    if 5 < tok1.len() {
        assert(tok1.take(5)[0] == 'i');
        assert("stat:"@[0] == 's');
        assert(token_value(tok1, "stat:"@) is None);
    }
    let tv = seq![tok1, tok2];
    assert(tv.drop_first() =~= seq![tok2]);
    assert(first_value(tv, "id:"@) == Option::Some(id));
    assert(first_value(tv, "stat:"@) == first_value(seq![tok2], "stat:"@));
    assert(first_value(tv, "stat:"@) == Option::Some(canonical_stat(st)));
}

/// Parse a textual delivery receipt body: the first `id:` value and the
/// state mapped from the first `stat:` value, or `None` when no `id:` token
/// with a non-empty value is present.
pub fn parse_textual_dlr(text: &str) -> (r: Option<(String, DlrState)>)
    ensures
        r matches Some(pair) ==> parse_dlr_view(text@) == Option::Some((pair.0@, pair.1)),
        r is None ==> parse_dlr_view(text@) is None,
{
    let toks = tokenize(text);
    let ghost tv = token_views(toks@);
    let mut id: Option<String> = None;
    let mut stat: Option<String> = None;
    let mut i: usize = 0;
    proof {
        assert(tv.skip(0) =~= tv);
    }
    while i < toks.len() && !(id.is_some() && stat.is_some())
        invariant
            i <= toks@.len(),
            tv == token_views(toks@),
            match id {
                Option::Some(v) => first_value(tv, "id:"@) == Option::Some(v@),
                Option::None => first_value(tv, "id:"@) == first_value(
                    tv.skip(i as int),
                    "id:"@,
                ),
            },
            match stat {
                Option::Some(v) => first_value(tv, "stat:"@) == Option::Some(v@),
                Option::None => first_value(tv, "stat:"@) == first_value(
                    tv.skip(i as int),
                    "stat:"@,
                ),
            },
        decreases toks@.len() - i,
    {
        let t = &toks[i];
        proof {
            assert(tv[i as int] == t@);
            lemma_first_value_step(tv, "id:"@, i as int);
            lemma_first_value_step(tv, "stat:"@, i as int);
        }
        if id.is_none() {
            if let Some(v) = token_value_exec(t.as_str(), "id:") {
                id = Some(v);
            }
        } else {
            proof {
                assert(first_value(tv, "id:"@) is Some);
            }
        }
        if stat.is_none() {
            if let Some(v) = token_value_exec(t.as_str(), "stat:") {
                stat = Some(v);
            }
        }
        i += 1;
    }
    proof {
        if i == toks@.len() {
            assert(tv.skip(i as int) =~= Seq::<Seq<char>>::empty());
        }
    }
    match id {
        Some(idv) => {
            let st = match &stat {
                Some(s) => map_stat_to_state(s.as_str()),
                None => DlrState::Unknown,
            };
            Some((idv, st))
        },
        None => None,
    }
}

} // verus!
