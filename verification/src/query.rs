//! Reading the `from` and `to` filters of the summary endpoint out of a
//! request path such as `/payments-summary?from=...&to=...`.
use vstd::prelude::*;

use crate::text::{
    chars_equal, chars_of, find_from, first_index, lemma_first_index, lemma_replace_all_absent,
    lemma_replace_all_removes, replace_all, replace_chars,
    slice_chars, string_of,
};

verus! {

/// The sequence of replacements that decoding applies, in order:
/// `%3A`, `%2B`, `%2D`, `%2E` and `%20` by the characters they encode, then
/// every `+` by a space.
pub open spec fn url_decoded(s: Seq<char>) -> Seq<char> {
    let s1 = replace_all(s, seq!['%', '3', 'A'], seq![':']);
    let s2 = replace_all(s1, seq!['%', '2', 'B'], seq!['+']);
    let s3 = replace_all(s2, seq!['%', '2', 'D'], seq!['-']);
    let s4 = replace_all(s3, seq!['%', '2', 'E'], seq!['.']);
    let s5 = replace_all(s4, seq!['%', '2', '0'], seq![' ']);
    replace_all(s5, seq!['+'], seq![' '])
}

/// The part of `path` after its first `?`, if it has one.
pub open spec fn query_part(path: Seq<char>) -> Option<Seq<char>> {
    match first_index(path, '?') {
        Some(i) => Some(path.skip(i + 1)),
        None => None,
    }
}

/// The pieces of `s` between occurrences of `sep` (the behaviour of
/// `str::split` with a character): `n` separators give `n + 1` pieces, some
/// of which may be empty.
pub open spec fn split_on(s: Seq<char>, sep: char) -> Seq<Seq<char>>
    decreases s.len(),
{
    match first_index(s, sep) {
        Some(i) => if 0 <= i < s.len() {
            seq![s.take(i)] + split_on(s.skip(i + 1), sep)
        } else {
            seq![s]
        },
        None => seq![s],
    }
}

/// The filters found so far: the `from` value and the `to` value.
pub type Filters = (Option<Seq<char>>, Option<Seq<char>>);

/// The effect of one `key=value` parameter: a `from` or `to` key sets that
/// filter to the decoded value (a later one overrides an earlier one); any
/// other key, and a parameter without `=`, change nothing.
pub open spec fn apply_param(acc: Filters, param: Seq<char>) -> Filters {
    match first_index(param, '=') {
        Some(e) => {
            let key = param.take(e);
            let value = url_decoded(param.skip(e + 1));
            if key == seq!['f', 'r', 'o', 'm'] {
                (Some(value), acc.1)
            } else if key == seq!['t', 'o'] {
                (acc.0, Some(value))
            } else {
                acc
            }
        },
        None => acc,
    }
}

/// Applies the parameters in order.
pub open spec fn apply_params(acc: Filters, params: Seq<Seq<char>>) -> Filters
    decreases params.len(),
{
    if params.len() == 0 {
        acc
    } else {
        apply_params(apply_param(acc, params[0]), params.skip(1))
    }
}

/// The `from` and `to` filters of a request path: nothing without a query,
/// else the result of its `&`-separated parameters.
pub open spec fn query_filters(path: Seq<char>) -> Filters {
    match query_part(path) {
        Some(q) => apply_params((None, None), split_on(q, '&')),
        None => (None, None),
    }
}

/// The view of an optional string.
pub open spec fn opt_view(o: Option<String>) -> Option<Seq<char>> {
    match o {
        Some(s) => Some(s@),
        None => None,
    }
}

/// Decodes the characters of a query value.
pub fn decode_chars(v: &Vec<char>) -> (r: Vec<char>)
    ensures
        r@ == url_decoded(v@),
{
    let p1 = vec!['%', '3', 'A'];
    let p2 = vec!['%', '2', 'B'];
    let p3 = vec!['%', '2', 'D'];
    let p4 = vec!['%', '2', 'E'];
    let p5 = vec!['%', '2', '0'];
    let p6 = vec!['+'];
    let r1 = vec![':'];
    let r2 = vec!['+'];
    let r3 = vec!['-'];
    let r4 = vec!['.'];
    let r5 = vec![' '];
    assert(p1@ =~= seq!['%', '3', 'A'] && p2@ =~= seq!['%', '2', 'B'] && p3@ =~= seq![
        '%',
        '2',
        'D',
    ] && p4@ =~= seq!['%', '2', 'E'] && p5@ =~= seq!['%', '2', '0'] && p6@ =~= seq!['+']);
    assert(r1@ =~= seq![':'] && r2@ =~= seq!['+'] && r3@ =~= seq!['-'] && r4@ =~= seq!['.']
        && r5@ =~= seq![' ']);
    let s1 = replace_chars(v, &p1, &r1);
    let s2 = replace_chars(&s1, &p2, &r2);
    let s3 = replace_chars(&s2, &p3, &r3);
    let s4 = replace_chars(&s3, &p4, &r4);
    let s5 = replace_chars(&s4, &p5, &r5);
    replace_chars(&s5, &p6, &r5)
}

/// Decodes the escapes that timestamps in a query carry: `%3A`, `%2B`,
/// `%2D`, `%2E`, `%20`, and `+` for a space.
pub fn url_decode(input: &str) -> (r: String)
    ensures
        r@ == url_decoded(input@),
{
    let v = chars_of(input);
    let d = decode_chars(&v);
    string_of(d.as_slice())
}

/// A character found first at `i` is what `first_index` finds.
proof fn lemma_first_index_at(s: Seq<char>, c: char, i: int)
    requires
        0 <= i < s.len(),
        s[i] == c,
        forall|j: int| 0 <= j < i ==> s[j] != c,
    ensures
        first_index(s, c) == Some(i),
{
    lemma_first_index(s, c);
    assert(s.contains(c));
}

/// The filters that one parameter, held in `seg`, yields from `acc`.
fn apply_param_exec(
    from: Option<String>,
    to: Option<String>,
    seg: &Vec<char>,
) -> (r: (Option<String>, Option<String>))
    ensures
        (opt_view(r.0), opt_view(r.1)) == apply_param((opt_view(from), opt_view(to)), seg@),
{
    proof {
        lemma_first_index(seg@, '=');
    }
    match find_from(seg, 0, '=') {
        Some(eq_pos) => {
            proof {
                lemma_first_index_at(seg@, '=', eq_pos as int);
            }
            let key = slice_chars(seg, 0, eq_pos);
            let value = slice_chars(seg, eq_pos + 1, seg.len());
            assert(key@ =~= seg@.take(eq_pos as int));
            assert(value@ =~= seg@.skip(eq_pos + 1));
            let decoded = decode_chars(&value);
            let from_key = vec!['f', 'r', 'o', 'm'];
            let to_key = vec!['t', 'o'];
            assert(from_key@ =~= seq!['f', 'r', 'o', 'm'] && to_key@ =~= seq!['t', 'o']);
            if chars_equal(&key, &from_key) {
                (Some(string_of(decoded.as_slice())), to)
            } else if chars_equal(&key, &to_key) {
                (from, Some(string_of(decoded.as_slice())))
            } else {
                (from, to)
            }
        },
        None => {
            assert(!seg@.contains('=')) by {
                if seg@.contains('=') {
                    let k = choose|k: int| 0 <= k < seg@.len() && seg@[k] == '=';
                    assert(seg@[k] != '=');
                }
            }
            (from, to)
        },
    }
}

/// Reads the `from` and `to` parameters of the query in `path`, decoding
/// their values. Without a `?` both are absent; a key that occurs more than
/// once takes its last value.
pub fn parse_query_params_from_path(path: &str) -> (r: (Option<String>, Option<String>))
    ensures
        (opt_view(r.0), opt_view(r.1)) == query_filters(path@),
{
    let p = chars_of(path);
    proof {
        lemma_first_index(p@, '?');
    }
    match find_from(&p, 0, '?') {
        None => {
            assert(!p@.contains('?')) by {
                if p@.contains('?') {
                    let k = choose|k: int| 0 <= k < p@.len() && p@[k] == '?';
                    assert(p@[k] != '?');
                }
            }
            (None, None)
        },
        Some(query_start) => {
            proof {
                lemma_first_index_at(p@, '?', query_start as int);
            }
            let mut from: Option<String> = None;
            let mut to: Option<String> = None;
            let mut start: usize = query_start + 1;
            loop
                invariant
                    p@ == path@,
                    query_start < start <= p.len(),
                    query_filters(p@) == apply_params(
                        (opt_view(from), opt_view(to)),
                        split_on(p@.skip(start as int), '&'),
                    ),
                decreases p.len() - start,
            {
                let ghost rest = p@.skip(start as int);
                proof {
                    lemma_first_index(rest, '&');
                }
                match find_from(&p, start, '&') {
                    Some(amp) => {
                        proof {
                            assert forall|j: int| 0 <= j < amp - start implies rest[j] != '&' by {
                                assert(rest[j] == p@[start + j]);
                            }
                            lemma_first_index_at(rest, '&', amp - start);
                            assert(rest.take(amp - start) =~= p@.subrange(
                                start as int,
                                amp as int,
                            ));
                            assert(rest.skip(amp - start + 1) =~= p@.skip(amp + 1));
                            let sp = split_on(rest, '&');
                            assert(sp[0] == p@.subrange(start as int, amp as int));
                            assert(sp.skip(1) =~= split_on(p@.skip(amp + 1), '&'));
                        }
                        let seg = slice_chars(&p, start, amp);
                        let (f, t) = apply_param_exec(from, to, &seg);
                        from = f;
                        to = t;
                        start = amp + 1;
                    },
                    None => {
                        proof {
                            assert(!rest.contains('&')) by {
                                if rest.contains('&') {
                                    let k = choose|k: int| 0 <= k < rest.len() && rest[k] == '&';
                                    assert(p@[start + k] == '&');
                                }
                            }
                            let sp = split_on(rest, '&');
                            assert(sp =~= seq![rest]);
                            assert(rest =~= p@.subrange(start as int, p@.len() as int));
                            assert(sp.skip(1) =~= Seq::<Seq<char>>::empty());
                            assert(apply_params((opt_view(from), opt_view(to)), sp) == apply_params(
                                apply_param((opt_view(from), opt_view(to)), rest),
                                sp.skip(1),
                            ));
                        }
                        let ghost acc = (opt_view(from), opt_view(to));
                        let seg = slice_chars(&p, start, p.len());
                        let (f, t) = apply_param_exec(from, to, &seg);
                        proof {
                            let sp = split_on(rest, '&');
                            assert(seg@ == rest);
                            assert(apply_params(apply_param(acc, rest), Seq::<Seq<char>>::empty())
                                == apply_param(acc, rest));
                            assert(query_filters(p@) == apply_params(acc, sp));
                        }
                        return (f, t);
                    },
                }
            }
        },
    }
}

/// The key of a `key=value` parameter: what precedes its first `=` (none
/// without `=`).
pub open spec fn param_key(param: Seq<char>) -> Option<Seq<char>> {
    match first_index(param, '=') {
        Some(e) => Some(param.take(e)),
        None => None,
    }
}

/// The raw value of a `key=value` parameter: what follows its first `=`.
pub open spec fn param_value(param: Seq<char>) -> Seq<char> {
    match first_index(param, '=') {
        Some(e) => param.skip(e + 1),
        None => Seq::empty(),
    }
}

/// Every parameter is applied, the first one first, whatever has been
/// found so far.
pub proof fn lemma_apply_params_step(acc: Filters, params: Seq<Seq<char>>)
    requires
        params.len() > 0,
    ensures
        apply_params(acc, params) == apply_params(apply_param(acc, params[0]), params.skip(1)),
{
}

/// Parameters none of which is a `from` leave the `from` filter as it was.
pub proof fn lemma_no_from_keeps(acc: Filters, params: Seq<Seq<char>>)
    requires
        forall|j: int|
            0 <= j < params.len() ==> param_key(#[trigger] params[j]) != Some(
                seq!['f', 'r', 'o', 'm'],
            ),
    ensures
        apply_params(acc, params).0 == acc.0,
    decreases params.len(),
{
    if params.len() > 0 {
        assert forall|j: int| 0 <= j < params.skip(1).len() implies param_key(
            #[trigger] params.skip(1)[j],
        ) != Some(seq!['f', 'r', 'o', 'm']) by {
            assert(params.skip(1)[j] == params[j + 1]);
        }
        assert(param_key(params[0]) != Some(seq!['f', 'r', 'o', 'm']));
        lemma_no_from_keeps(apply_param(acc, params[0]), params.skip(1));
    }
}

/// Parameters none of which is a `to` leave the `to` filter as it was.
pub proof fn lemma_no_to_keeps(acc: Filters, params: Seq<Seq<char>>)
    requires
        forall|j: int|
            0 <= j < params.len() ==> param_key(#[trigger] params[j]) != Some(seq!['t', 'o']),
    ensures
        apply_params(acc, params).1 == acc.1,
    decreases params.len(),
{
    if params.len() > 0 {
        assert forall|j: int| 0 <= j < params.skip(1).len() implies param_key(
            #[trigger] params.skip(1)[j],
        ) != Some(seq!['t', 'o']) by {
            assert(params.skip(1)[j] == params[j + 1]);
        }
        assert(param_key(params[0]) != Some(seq!['t', 'o']));
        lemma_no_to_keeps(apply_param(acc, params[0]), params.skip(1));
    }
}

/// The last `from` parameter, wherever it stands among the others, gives
/// the `from` filter: its decoded value.
pub proof fn lemma_last_from_wins(acc: Filters, params: Seq<Seq<char>>, i: int)
    requires
        0 <= i < params.len(),
        param_key(params[i]) == Some(seq!['f', 'r', 'o', 'm']),
        forall|j: int|
            i < j < params.len() ==> param_key(#[trigger] params[j]) != Some(
                seq!['f', 'r', 'o', 'm'],
            ),
    ensures
        apply_params(acc, params).0 == Some(url_decoded(param_value(params[i]))),
    decreases params.len(),
{
    if i == 0 {
        assert forall|j: int| 0 <= j < params.skip(1).len() implies param_key(
            #[trigger] params.skip(1)[j],
        ) != Some(seq!['f', 'r', 'o', 'm']) by {
            assert(params.skip(1)[j] == params[j + 1]);
        }
        lemma_no_from_keeps(apply_param(acc, params[0]), params.skip(1));
    } else {
        assert forall|j: int| i - 1 < j < params.skip(1).len() implies param_key(
            #[trigger] params.skip(1)[j],
        ) != Some(seq!['f', 'r', 'o', 'm']) by {
            assert(params.skip(1)[j] == params[j + 1]);
        }
        assert(params.skip(1)[i - 1] == params[i]);
        lemma_last_from_wins(apply_param(acc, params[0]), params.skip(1), i - 1);
    }
}

/// The last `to` parameter, wherever it stands among the others, gives the
/// `to` filter: its decoded value.
pub proof fn lemma_last_to_wins(acc: Filters, params: Seq<Seq<char>>, i: int)
    requires
        0 <= i < params.len(),
        param_key(params[i]) == Some(seq!['t', 'o']),
        forall|j: int|
            i < j < params.len() ==> param_key(#[trigger] params[j]) != Some(seq!['t', 'o']),
    ensures
        apply_params(acc, params).1 == Some(url_decoded(param_value(params[i]))),
    decreases params.len(),
{
    if i == 0 {
        assert forall|j: int| 0 <= j < params.skip(1).len() implies param_key(
            #[trigger] params.skip(1)[j],
        ) != Some(seq!['t', 'o']) by {
            assert(params.skip(1)[j] == params[j + 1]);
        }
        assert(seq!['t', 'o'] != seq!['f', 'r', 'o', 'm']) by {
            assert(seq!['t', 'o'].len() != seq!['f', 'r', 'o', 'm'].len());
        }
        lemma_no_to_keeps(apply_param(acc, params[0]), params.skip(1));
    } else {
        assert forall|j: int| i - 1 < j < params.skip(1).len() implies param_key(
            #[trigger] params.skip(1)[j],
        ) != Some(seq!['t', 'o']) by {
            assert(params.skip(1)[j] == params[j + 1]);
        }
        assert(params.skip(1)[i - 1] == params[i]);
        lemma_last_to_wins(apply_param(acc, params[0]), params.skip(1), i - 1);
    }
}

/// For a request path: the `from` filter is the decoded value of the last
/// `from` parameter of its query, and the `to` filter that of the last `to`
/// parameter, in whatever order the parameters come.
pub proof fn lemma_path_filters(path: Seq<char>, q: Seq<char>, i: int, k: int)
    requires
        query_part(path) == Some(q),
        0 <= i < split_on(q, '&').len(),
        0 <= k < split_on(q, '&').len(),
        param_key(split_on(q, '&')[i]) == Some(seq!['f', 'r', 'o', 'm']),
        forall|j: int|
            i < j < split_on(q, '&').len() ==> param_key(#[trigger] split_on(q, '&')[j]) != Some(
                seq!['f', 'r', 'o', 'm'],
            ),
        param_key(split_on(q, '&')[k]) == Some(seq!['t', 'o']),
        forall|j: int|
            k < j < split_on(q, '&').len() ==> param_key(#[trigger] split_on(q, '&')[j]) != Some(
                seq!['t', 'o'],
            ),
    ensures
        query_filters(path).0 == Some(url_decoded(param_value(split_on(q, '&')[i]))),
        query_filters(path).1 == Some(url_decoded(param_value(split_on(q, '&')[k]))),
{
    lemma_last_from_wins((None, None), split_on(q, '&'), i);
    lemma_last_to_wins((None, None), split_on(q, '&'), k);
}

/// Decoded values never hold a `+`: every `+`, including one written as
/// `%2B`, ends up as a space.
pub proof fn lemma_decoded_has_no_plus(s: Seq<char>)
    ensures
        !url_decoded(s).contains('+'),
{
    let s1 = replace_all(s, seq!['%', '3', 'A'], seq![':']);
    let s2 = replace_all(s1, seq!['%', '2', 'B'], seq!['+']);
    let s3 = replace_all(s2, seq!['%', '2', 'D'], seq!['-']);
    let s4 = replace_all(s3, seq!['%', '2', 'E'], seq!['.']);
    let s5 = replace_all(s4, seq!['%', '2', '0'], seq![' ']);
    assert(!seq![' '].contains('+')) by {
        if seq![' '].contains('+') {
            let k = choose|k: int| 0 <= k < 1 && seq![' '][k] == '+';
        }
    }
    lemma_replace_all_removes(s5, '+', seq![' ']);
}

/// A value with neither `%` nor `+` is left as it is by decoding.
pub proof fn lemma_decode_plain(s: Seq<char>)
    requires
        !s.contains('%'),
        !s.contains('+'),
    ensures
        url_decoded(s) == s,
{
    lemma_replace_all_absent(s, seq!['%', '3', 'A'], seq![':']);
    lemma_replace_all_absent(s, seq!['%', '2', 'B'], seq!['+']);
    lemma_replace_all_absent(s, seq!['%', '2', 'D'], seq!['-']);
    lemma_replace_all_absent(s, seq!['%', '2', 'E'], seq!['.']);
    lemma_replace_all_absent(s, seq!['%', '2', '0'], seq![' ']);
    lemma_replace_all_absent(s, seq!['+'], seq![' ']);
}

} // verus!
