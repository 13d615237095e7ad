use vstd::prelude::*;

use crate::auth::LoginClaims;

verus! {

/// The user a request was made by.
#[derive(Clone, Copy, Debug, PartialEq, Eq, Structural)]
pub struct User {
    pub id: i32,
}

/// Why a request carries no acceptable user.
#[derive(Clone, Copy, Debug, PartialEq, Eq, Structural)]
pub enum AuthorizationError {
    MissingToken,
    InvalidToken,
}

impl AuthorizationError {
    /// The HTTP status a refused request is answered with: Bad Request.
    pub fn status_code(&self) -> (code: u16)
        ensures
            code == 400,
    {
        400
    }
}

/// Unicode's `White_Space` characters, those that `char::is_whitespace`
/// accepts.
pub open spec fn is_white_space(c: char) -> bool {
    ||| '\u{9}' <= c <= '\u{d}'
    ||| c == ' '
    ||| c == '\u{85}'
    ||| c == '\u{a0}'
    ||| c == '\u{1680}'
    ||| '\u{2000}' <= c <= '\u{200a}'
    ||| c == '\u{2028}'
    ||| c == '\u{2029}'
    ||| c == '\u{202f}'
    ||| c == '\u{205f}'
    ||| c == '\u{3000}'
}

/// Whether `c` is white space.
pub fn white_space(c: char) -> (b: bool)
    ensures
        b == is_white_space(c),
{
    ('\u{9}' <= c && c <= '\u{d}') || c == ' ' || c == '\u{85}' || c == '\u{a0}' || c == '\u{1680}'
        || ('\u{2000}' <= c && c <= '\u{200a}') || c == '\u{2028}' || c == '\u{2029}' || c
        == '\u{202f}' || c == '\u{205f}' || c == '\u{3000}'
}

/// The number of characters before the first white space.
pub open spec fn word_len(s: Seq<char>) -> nat
    decreases s.len(),
{
    if s.len() == 0 || is_white_space(s[0]) {
        0
    } else {
        1 + word_len(s.drop_first())
    }
}

/// A word is no longer than the text, and not empty where the text begins
/// with a character other than white space.
pub proof fn lemma_word_len_bound(s: Seq<char>)
    ensures
        word_len(s) <= s.len(),
        s.len() > 0 && !is_white_space(s[0]) ==> word_len(s) >= 1,
    decreases s.len(),
{
    if s.len() > 0 && !is_white_space(s[0]) {
        lemma_word_len_bound(s.drop_first());
    }
}

/// The words of a text: its longest runs of characters other than white
/// space, in order, as `str::split_whitespace` yields them.
pub open spec fn words(s: Seq<char>) -> Seq<Seq<char>>
    decreases s.len(),
{
    if s.len() == 0 {
        Seq::empty()
    } else if is_white_space(s[0]) {
        words(s.drop_first())
    } else {
        proof {
            lemma_word_len_bound(s);
        }
        seq![s.take(word_len(s) as int)] + words(s.skip(word_len(s) as int))
    }
}

proof fn lemma_word_len_exact(s: Seq<char>, m: int)
    requires
        0 <= m <= s.len(),
        forall|j: int| 0 <= j < m ==> !is_white_space(#[trigger] s[j]),
        m == s.len() || is_white_space(s[m]),
    ensures
        word_len(s) == m,
    decreases m,
{
    if m > 0 {
        let t = s.drop_first();
        assert forall|j: int| 0 <= j < m - 1 implies !is_white_space(#[trigger] t[j]) by {
            assert(t[j] == s[j + 1]);
        }
        if m < s.len() {
            assert(t[m - 1] == s[m]);
        }
        lemma_word_len_exact(t, m - 1);
    }
}

/// Past white space at `i`, the words from `i` are those from `i + 1`.
proof fn lemma_words_skip_space(s: Seq<char>, i: int)
    requires
        0 <= i < s.len(),
        is_white_space(s[i]),
    ensures
        words(s.skip(i)) == words(s.skip(i + 1)),
{
    assert(s.skip(i).drop_first() =~= s.skip(i + 1));
}

/// A run of non-space characters from `start` to `end`, ended by white
/// space or by the text's end, is the first word from `start`.
proof fn lemma_words_take_word(s: Seq<char>, start: int, end: int)
    requires
        0 <= start < end <= s.len(),
        forall|j: int| start <= j < end ==> !is_white_space(#[trigger] s[j]),
        end == s.len() || is_white_space(s[end]),
    ensures
        words(s.skip(start)) == seq![s.subrange(start, end)] + words(s.skip(end)),
{
    let t = s.skip(start);
    assert forall|j: int| 0 <= j < end - start implies !is_white_space(#[trigger] t[j]) by {
        assert(t[j] == s[start + j]);
    }
    if end < s.len() {
        assert(t[end - start] == s[end]);
    }
    lemma_word_len_exact(t, end - start);
    assert(t[0] == s[start]);
    assert(t.take(end - start) =~= s.subrange(start, end));
    assert(t.skip(end - start) =~= s.skip(end));
}

/// The start and end (in characters) of each word of `text`.
pub fn word_bounds(text: &str) -> (bounds: Vec<(usize, usize)>)
    ensures
        bounds@.len() == words(text@).len(),
        forall|k: int|
            0 <= k < bounds@.len() ==> {
                &&& (#[trigger] bounds@[k]).0 <= bounds@[k].1 <= text@.len()
                &&& text@.subrange(bounds@[k].0 as int, bounds@[k].1 as int) == words(text@)[k]
            },
{
    let ghost s = text@;
    let n = text.unicode_len();
    let mut bounds: Vec<(usize, usize)> = Vec::new();
    let mut i: usize = 0;
    assert(s.skip(0) =~= s);
    while i < n
        invariant
            n == s.len(),
            s == text@,
            i <= n,
            forall|k: int|
                0 <= k < bounds@.len() ==> (#[trigger] bounds@[k]).0 <= bounds@[k].1 <= i,
            words(s) =~= Seq::new(
                bounds@.len(),
                |k: int| s.subrange(bounds@[k].0 as int, bounds@[k].1 as int),
            ) + words(s.skip(i as int)),
        decreases n - i,
    {
        let c = text.get_char(i);
        if white_space(c) {
            proof {
                lemma_words_skip_space(s, i as int);
            }
            i = i + 1;
        } else {
            let start = i;
            i = i + 1;
            while i < n && !white_space(text.get_char(i))
                invariant
                    n == s.len(),
                    s == text@,
                    start < i <= n,
                    forall|j: int| start <= j < i ==> !is_white_space(#[trigger] s[j]),
                decreases n - i,
            {
                i = i + 1;
            }
            proof {
                lemma_words_take_word(s, start as int, i as int);
            }
            let ghost old_bounds = bounds@;
            bounds.push((start, i));
            proof {
                let found = Seq::new(
                    old_bounds.len(),
                    |k: int| s.subrange(old_bounds[k].0 as int, old_bounds[k].1 as int),
                );
                let found2 = Seq::new(
                    bounds@.len(),
                    |k: int| s.subrange(bounds@[k].0 as int, bounds@[k].1 as int),
                );
                assert(found2 =~= found.push(s.subrange(start as int, i as int)));
            }
        }
    }
    proof {
        assert(s.skip(n as int) =~= Seq::<char>::empty());
        assert(words(s.skip(n as int)) =~= Seq::<Seq<char>>::empty());
    }
    bounds
}

/// The authentication scheme of a bearer token.
pub open spec fn bearer_scheme() -> Seq<char> {
    seq!['B', 'e', 'a', 'r', 'e', 'r']
}

/// The token of an `Authorization` header value that consists of exactly
/// two words, the first of them `Bearer`.
pub open spec fn bearer_token_of(header: Seq<char>) -> Option<Seq<char>> {
    let w = words(header);
    if w.len() == 2 && w[0] == bearer_scheme() {
        Some(w[1])
    } else {
        None
    }
}

/// The token that an `Authorization` header carries: a missing header
/// lacks it, and a header that is not `Bearer` and one word more holds an
/// invalid one.
#[verifier::loop_isolation(false)]
pub fn bearer_token(authorization: Option<&str>) -> (r: Result<String, AuthorizationError>)
    ensures
        authorization is None ==> r == Err::<String, AuthorizationError>(
            AuthorizationError::MissingToken,
        ),
        authorization matches Some(value) ==> match bearer_token_of(value@) {
            None => r == Err::<String, AuthorizationError>(AuthorizationError::InvalidToken),
            Some(token) => (r matches Ok(t) && t@ == token),
        },
{
    let value = match authorization {
        None => return Err(AuthorizationError::MissingToken),
        Some(value) => value,
    };
    let bounds = word_bounds(value);
    if bounds.len() != 2 {
        return Err(AuthorizationError::InvalidToken);
    }
    let (start, end) = bounds[0];
    let scheme = "Bearer";
    proof {
        reveal_strlit("Bearer");
        assert(scheme@ =~= bearer_scheme());
    }
    if end - start != 6 {
        return Err(AuthorizationError::InvalidToken);
    }
    let mut k: usize = 0;
    while k < 6
        invariant
            start + 6 == end,
            end <= value@.len(),
            scheme@ == bearer_scheme(),
            k <= 6,
            forall|j: int| 0 <= j < k ==> value@[start + j] == bearer_scheme()[j],
        decreases 6 - k,
    {
        if value.get_char(start + k) != scheme.get_char(k) {
            proof {
                assert(value@.subrange(start as int, end as int)[k as int] != bearer_scheme()[k as int]);
            }
            return Err(AuthorizationError::InvalidToken);
        }
        k = k + 1;
    }
    proof {
        assert(value@.subrange(start as int, end as int) =~= bearer_scheme());
    }
    let (token_start, token_end) = bounds[1];
    Ok(value.substring_char(token_start, token_end).to_owned())
}

/// The user that the decoded claims of a token name; a token that could
/// not be decoded is invalid.
pub fn user_from_claims(decoded: Option<LoginClaims>) -> (r: Result<User, AuthorizationError>)
    ensures
        match decoded {
            Some(claims) => r == Ok::<User, AuthorizationError>(User { id: claims.sub }),
            None => r == Err::<User, AuthorizationError>(AuthorizationError::InvalidToken),
        },
{
    match decoded {
        Some(claims) => Ok(User { id: claims.sub }),
        None => Err(AuthorizationError::InvalidToken),
    }
}

/// A token is read back from the header value `Bearer <token>` that a
/// client writes, for every token that is not empty and holds no white
/// space.
pub proof fn lemma_bearer_header_round_trip(token: Seq<char>)
    requires
        token.len() > 0,
        forall|i: int| 0 <= i < token.len() ==> !is_white_space(#[trigger] token[i]),
    ensures
        bearer_token_of(bearer_scheme() + seq![' '] + token) == Some(token),
{
    let s = bearer_scheme() + seq![' '] + token;
    assert(s.skip(0) =~= s);
    assert(s[6] == ' ');
    lemma_words_take_word(s, 0, 6);
    assert(s.subrange(0, 6) =~= bearer_scheme());
    lemma_words_skip_space(s, 6);
    let n = s.len() as int;
    assert forall|j: int| 7 <= j < n implies !is_white_space(#[trigger] s[j]) by {
        assert(s[j] == token[j - 7]);
    }
    lemma_words_take_word(s, 7, n);
    assert(s.subrange(7, n) =~= token);
    assert(s.skip(n) =~= Seq::<char>::empty());
    assert(words(s.skip(n)) =~= Seq::<Seq<char>>::empty());
    assert(words(s) =~= seq![bearer_scheme(), token]);
}

} // verus!
