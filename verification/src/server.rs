//! Request routing and the statuses that the endpoints answer with.
use vstd::prelude::*;

use crate::text::{chars_equal, chars_of, find_from, first_index, lemma_first_index, slice_chars};

verus! {

/// Which handler serves a request.
#[derive(Clone, Copy, Debug, PartialEq, Eq, Structural)]
pub enum Route {
    /// `POST /payments`.
    Payment,
    /// `GET /payments-summary`.
    PaymentsSummary,
    /// Anything else: answered with 404 Not Found.
    NotFound,
}

/// The path without its query: what precedes the first `?`.
pub open spec fn path_without_query(path: Seq<char>) -> Seq<char> {
    match first_index(path, '?') {
        Some(i) => path.take(i),
        None => path,
    }
}

/// The route of a request with this method and path.
pub open spec fn route_of(method: Seq<char>, path: Seq<char>) -> Route {
    let p = path_without_query(path);
    if method == seq!['P', 'O', 'S', 'T'] && p == seq!['/', 'p', 'a', 'y', 'm', 'e', 'n', 't', 's'] {
        Route::Payment
    } else if method == seq!['G', 'E', 'T'] && p == seq![
        '/',
        'p',
        'a',
        'y',
        'm',
        'e',
        'n',
        't',
        's',
        '-',
        's',
        'u',
        'm',
        'm',
        'a',
        'r',
        'y',
    ] {
        Route::PaymentsSummary
    } else {
        Route::NotFound
    }
}

/// Chooses the handler for a request by its method and its path without
/// the query.
pub fn route_request(method: &str, path: &str) -> (r: Route)
    ensures
        r == route_of(method@, path@),
{
    let m = chars_of(method);
    let p = chars_of(path);
    proof {
        lemma_first_index(p@, '?');
    }
    let end = match find_from(&p, 0, '?') {
        Some(q) => {
            proof {
                assert(p@.contains('?'));
                let i = first_index(p@, '?')->0;
                if i < q {
                    assert(p@[i] == '?');
                } else if i > q {
                    assert(p@[q as int] != '?');
                }
            }
            q
        },
        None => {
            proof {
                if p@.contains('?') {
                    let k = choose|k: int| 0 <= k < p@.len() && p@[k] == '?';
                    assert(p@[k] != '?');
                }
            }
            p.len()
        },
    };
    let bare = slice_chars(&p, 0, end);
    assert(bare@ =~= path_without_query(p@));
    let post = vec!['P', 'O', 'S', 'T'];
    let get = vec!['G', 'E', 'T'];
    let payments = vec!['/', 'p', 'a', 'y', 'm', 'e', 'n', 't', 's'];
    let summary = vec![
        '/',
        'p',
        'a',
        'y',
        'm',
        'e',
        'n',
        't',
        's',
        '-',
        's',
        'u',
        'm',
        'm',
        'a',
        'r',
        'y',
    ];
    assert(post@ =~= seq!['P', 'O', 'S', 'T'] && get@ =~= seq!['G', 'E', 'T']);
    assert(payments@ =~= seq!['/', 'p', 'a', 'y', 'm', 'e', 'n', 't', 's']);
    assert(summary@ =~= seq![
        '/',
        'p',
        'a',
        'y',
        'm',
        'e',
        'n',
        't',
        's',
        '-',
        's',
        'u',
        'm',
        'm',
        'a',
        'r',
        'y',
    ]);
    if chars_equal(&m, &post) && chars_equal(&bare, &payments) {
        Route::Payment
    } else if chars_equal(&m, &get) && chars_equal(&bare, &summary) {
        Route::PaymentsSummary
    } else {
        Route::NotFound
    }
}

/// The status code and reason that answer a submitted payment: 202 when it
/// was queued, 503 when the queue refused it.
pub fn payment_status(queued: bool) -> (r: (u16, &'static str))
    ensures
        queued ==> r.0 == 202 && r.1@ == "Accepted"@,
        !queued ==> r.0 == 503 && r.1@ == "Service Unavailable"@,
{
    if queued {
        (202, "Accepted")
    } else {
        (503, "Service Unavailable")
    }
}

/// The status code and reason for a request that no handler serves.
pub fn not_found_status() -> (r: (u16, &'static str))
    ensures
        r.0 == 404 && r.1@ == "Not Found"@,
{
    (404, "Not Found")
}

} // verus!
