use vstd::prelude::*;
use vstd::string::*;

verus! {

/// The Unicode White_Space set: the separator set used when a class
/// attribute is split into tokens, matching what `split_whitespace`
/// splits on.
pub open spec fn is_ws(c: char) -> bool {
    let u = c as u32;
    ||| 0x9 <= u <= 0xd
    ||| u == 0x20
    ||| u == 0x85
    ||| u == 0xa0
    ||| u == 0x1680
    ||| 0x2000 <= u <= 0x200a
    ||| u == 0x2028
    ||| u == 0x2029
    ||| u == 0x202f
    ||| u == 0x205f
    ||| u == 0x3000
}

pub(crate) fn is_ws_char(c: char) -> (r: bool)
    ensures
        r == is_ws(c),
{
    let u = c as u32;
    (0x9 <= u && u <= 0xd) || u == 0x20 || u == 0x85 || u == 0xa0 || u == 0x1680 || (0x2000 <= u
        && u <= 0x200a) || u == 0x2028 || u == 0x2029 || u == 0x202f || u == 0x205f || u == 0x3000
}

/// Length of the maximal leading run of non-whitespace characters.
pub open spec fn token_len(s: Seq<char>) -> nat
    decreases s.len(),
{
    if s.len() == 0 || is_ws(s[0]) {
        0
    } else {
        1 + token_len(s.drop_first())
    }
}

pub proof fn lemma_token_len_le(s: Seq<char>)
    ensures
        token_len(s) <= s.len(),
    decreases s.len(),
{
    if s.len() == 0 || is_ws(s[0]) {
    } else {
        lemma_token_len_le(s.drop_first());
    }
}

/// The maximal non-whitespace prefix has length `k` exactly when the
/// first `k` characters are non-whitespace and the next one (if any)
/// is whitespace.
pub proof fn lemma_token_len_is(s: Seq<char>, k: int)
    requires
        0 <= k <= s.len(),
        forall|j: int| 0 <= j < k ==> !is_ws(s[j]),
        k == s.len() || is_ws(s[k]),
    ensures
        token_len(s) == k,
    decreases k,
{
    if k == 0 {
    } else {
        assert(!is_ws(s[0]));
        assert forall|j: int| 0 <= j < k - 1 implies !is_ws(s.drop_first()[j]) by {
            assert(s.drop_first()[j] == s[j + 1]);
        }
        if k < s.len() {
            assert(s.drop_first()[k - 1] == s[k]);
        }
        lemma_token_len_is(s.drop_first(), k - 1);
    }
}

/// The whitespace-separated tokens of `s`, in order.
pub open spec fn split_ws(s: Seq<char>) -> Seq<Seq<char>>
    decreases s.len(),
    via split_ws_decreases
{
    if s.len() == 0 {
        Seq::empty()
    } else if is_ws(s[0]) {
        split_ws(s.drop_first())
    } else {
        seq![s.take(token_len(s) as int)] + split_ws(s.skip(token_len(s) as int))
    }
}

#[via_fn]
proof fn split_ws_decreases(s: Seq<char>) {
    if s.len() > 0 && !is_ws(s[0]) {
        lemma_token_len_le(s);
    }
}

/// `token` occurs exactly (not as a substring) among the
/// whitespace-separated tokens of `s`.
pub open spec fn has_ws_token(s: Seq<char>, token: Seq<char>) -> bool {
    split_ws(s).contains(token)
}

pub open spec fn tok_views(ts: Seq<Vec<char>>) -> Seq<Seq<char>> {
    ts.map_values(|t: Vec<char>| t@)
}

/// The characters of `s` as a vector.
pub fn str_chars(s: &str) -> (r: Vec<char>)
    ensures
        r@ == s@,
{
    let n = s.unicode_len();
    let mut r: Vec<char> = Vec::new();
    let mut i: usize = 0;
    while i < n
        invariant
            i <= n,
            n == s@.len(),
            r@ == s@.take(i as int),
        decreases n - i,
    {
        let c = s.get_char(i);
        r.push(c);
        proof {
            assert(s@.take(i + 1) =~= s@.take(i as int).push(s@[i as int]));
        }
        i = i + 1;
    }
    proof {
        assert(s@.take(n as int) =~= s@);
    }
    r
}

pub fn char_vec_eq(a: &Vec<char>, b: &Vec<char>) -> (r: bool)
    ensures
        r == (a@ == b@),
{
    if a.len() != b.len() {
        return false;
    }
    let n = a.len();
    let mut i: usize = 0;
    while i < n
        invariant
            i <= n,
            n == a@.len(),
            n == b@.len(),
            forall|j: int| 0 <= j < i ==> a@[j] == b@[j],
        decreases n - i,
    {
        if a[i] != b[i] {
            return false;
        }
        i = i + 1;
    }
    proof {
        assert(a@ =~= b@);
    }
    true
}

/// Splits into maximal non-whitespace runs, dropping all whitespace.
pub fn split_whitespace_tokens(chars: &Vec<char>) -> (r: Vec<Vec<char>>)
    ensures
        tok_views(r@) == split_ws(chars@),
        r@.len() == split_ws(chars@).len(),
        forall|i: int| 0 <= i < r@.len() ==> r@[i]@ == split_ws(chars@)[i],
{
    let n = chars.len();
    let mut toks: Vec<Vec<char>> = Vec::new();
    let mut p: usize = 0;
    proof {
        assert(chars@.skip(0) =~= chars@);
        assert(tok_views(toks@) + split_ws(chars@) =~= split_ws(chars@));
    }
    while p < n
        invariant
            p <= n,
            n == chars@.len(),
            split_ws(chars@) == tok_views(toks@) + split_ws(chars@.skip(p as int)),
        decreases n - p,
    {
        let c = chars[p];
        if is_ws_char(c) {
            proof {
                assert(chars@.skip(p as int).drop_first() =~= chars@.skip(p + 1));
            }
            p = p + 1;
        } else {
            let ghost start: int = p as int;
            let mut cur: Vec<char> = Vec::new();
            loop
                invariant
                    0 <= start <= p <= n,
                    start < n,
                    n == chars@.len(),
                    !is_ws(chars@[start]),
                    cur@ == chars@.subrange(start, p as int),
                    forall|j: int| start <= j < p ==> !is_ws(chars@[j]),
                ensures
                    0 <= start <= p <= n,
                    start < n,
                    !is_ws(chars@[start]),
                    cur@ == chars@.subrange(start, p as int),
                    forall|j: int| start <= j < p ==> !is_ws(chars@[j]),
                    p == n || is_ws(chars@[p as int]),
                decreases n - p,
            {
                if p == n {
                    break;
                }
                let c2 = chars[p];
                if is_ws_char(c2) {
                    break;
                }
                cur.push(c2);
                proof {
                    let a = chars@.subrange(start, p as int);
                    let b = chars@.subrange(start, p + 1);
                    assert forall|ii: int| 0 <= ii < b.len() implies b[ii] == a.push(
                        chars@[p as int],
                    )[ii] by {
                        assert(b[ii] == chars@[start + ii]);
                        if ii < a.len() {
                            assert(a[ii] == chars@[start + ii]);
                        }
                    }
                    assert(b =~= a.push(chars@[p as int]));
                }
                p = p + 1;
            }
            proof {
                let t = chars@.skip(start);
                let k = p - start;
                assert(!is_ws(chars@[start]));
                if p == start {
                    assert(is_ws(chars@[start]));
                }
                assert(t.len() == n - start);
                assert(t[0] == chars@[start]);
                assert forall|j: int| 0 <= j < k implies !is_ws(t[j]) by {
                    assert(t[j] == chars@[start + j]);
                }
                if k < t.len() {
                    assert(t[k] == chars@[p as int]);
                }
                lemma_token_len_is(t, k);
                assert(t.take(k) =~= chars@.subrange(start, p as int));
                assert(t.skip(k) =~= chars@.skip(p as int));
                assert(split_ws(t) == seq![cur@] + split_ws(chars@.skip(p as int)));
                assert(tok_views(toks@.push(cur)) =~= tok_views(toks@) + seq![cur@]);
                assert(tok_views(toks@) + (seq![cur@] + split_ws(chars@.skip(p as int)))
                    =~= (tok_views(toks@) + seq![cur@]) + split_ws(chars@.skip(p as int)));
            }
            toks.push(cur);
        }
    }
    proof {
        assert(chars@.skip(n as int) =~= Seq::<char>::empty());
        assert(tok_views(toks@) + split_ws(chars@.skip(n as int)) =~= tok_views(toks@));
        assert forall|i: int| 0 <= i < toks@.len() implies toks@[i]@ == split_ws(chars@)[i] by {
            assert(tok_views(toks@)[i] == toks@[i]@);
        }
    }
    toks
}

/// Does `s` contain `token` as a whole whitespace-separated token?
pub fn contains_token(s: &str, token: &str) -> (r: bool)
    ensures
        r == has_ws_token(s@, token@),
{
    let cs = str_chars(s);
    let toks = split_whitespace_tokens(&cs);
    let target = str_chars(token);
    let n = toks.len();
    let mut i: usize = 0;
    while i < n
        invariant
            i <= n,
            n == toks@.len(),
            n == split_ws(s@).len(),
            target@ == token@,
            forall|k: int| 0 <= k < n ==> toks@[k]@ == split_ws(s@)[k],
            forall|k: int| 0 <= k < i ==> split_ws(s@)[k] != token@,
        decreases n - i,
    {
        if char_vec_eq(&toks[i], &target) {
            proof {
                assert(split_ws(s@)[i as int] == token@);
            }
            return true;
        }
        i = i + 1;
    }
    proof {
        if split_ws(s@).contains(token@) {
            let w = choose|w: int| 0 <= w < split_ws(s@).len() && split_ws(s@)[w] == token@;
            assert(split_ws(s@)[w] != token@);
        }
    }
    false
}

/// Index of the first occurrence of `c` in `s`, if any.
pub open spec fn find_index(s: Seq<char>, c: char) -> Option<int>
    decreases s.len(),
{
    if s.len() == 0 {
        None
    } else if s[0] == c {
        Some(0int)
    } else {
        match find_index(s.drop_first(), c) {
            Some(j) => Some(j + 1),
            None => None,
        }
    }
}

pub proof fn lemma_find_index_spec(s: Seq<char>, c: char)
    ensures
        match find_index(s, c) {
            Some(k) => 0 <= k < s.len() && s[k] == c && forall|j: int| 0 <= j < k ==> s[j] != c,
            None => forall|j: int| 0 <= j < s.len() ==> s[j] != c,
        },
    decreases s.len(),
{
    if s.len() == 0 {
    } else if s[0] == c {
    } else {
        lemma_find_index_spec(s.drop_first(), c);
        match find_index(s.drop_first(), c) {
            Some(j) => {
                assert(s[j + 1] == s.drop_first()[j]);
                assert forall|jj: int| 0 <= jj < j + 1 implies s[jj] != c by {
                    if jj > 0 {
                        assert(s.drop_first()[jj - 1] == s[jj]);
                    }
                }
            },
            None => {
                assert forall|jj: int| 0 <= jj < s.len() implies s[jj] != c by {
                    if jj > 0 {
                        assert(s.drop_first()[jj - 1] == s[jj]);
                    }
                }
            },
        }
    }
}

/// First index of `c` in `s`, scanning left to right.
pub fn find_char(s: &str, c: char) -> (r: Option<usize>)
    ensures
        match r {
            Some(k) => find_index(s@, c) == Some(k as int),
            None => find_index(s@, c) is None,
        },
{
    proof {
        lemma_find_index_spec(s@, c);
    }
    let n = s.unicode_len();
    let mut i: usize = 0;
    while i < n
        invariant
            i <= n,
            n == s@.len(),
            forall|j: int| 0 <= j < i ==> s@[j] != c,
        decreases n - i,
    {
        if s.get_char(i) == c {
            proof {
                lemma_find_index_spec(s@, c);
                match find_index(s@, c) {
                    Some(k) => {
                        if k < i as int {
                            assert(s@[k] != c);
                        }
                        if k > i as int {
                            assert(s@[i as int] != c);
                        }
                    },
                    None => {
                        assert(s@[i as int] != c);
                    },
                }
            }
            return Some(i);
        }
        i = i + 1;
    }
    proof {
        if find_index(s@, c) is Some {
            let k = find_index(s@, c).unwrap();
            assert(s@[k] != c);
        }
    }
    None
}

/// Two adjacent `>` characters: the query syntax that hands the rest
/// of the query to a post-processing text function.
pub open spec fn has_function_pipe(s: Seq<char>) -> bool {
    exists|i: int| 0 <= i && i + 1 < s.len() && (#[trigger] s[i]) == '>' && s[i + 1] == '>'
}

/// Concatenation keeps pipe-freedom as long as the seam itself does
/// not form a pipe.
pub proof fn lemma_pipe_free_concat(a: Seq<char>, b: Seq<char>)
    requires
        !has_function_pipe(a),
        !has_function_pipe(b),
        a.len() == 0 || b.len() == 0 || !(a.last() == '>' && b.first() == '>'),
    ensures
        !has_function_pipe(a + b),
{
    let t = a + b;
    assert forall|i: int| 0 <= i && i + 1 < t.len() implies !((#[trigger] t[i]) == '>' && t[i + 1]
        == '>') by {
        if i + 1 < a.len() {
            assert(t[i] == a[i] && t[i + 1] == a[i + 1]);
        } else if i + 1 == a.len() {
            assert(t[i] == a[i] && t[i + 1] == b[0]);
        } else {
            assert(t[i] == b[i - a.len()] && t[i + 1] == b[i + 1 - a.len()]);
        }
    }
}

/// Dropping a prefix keeps pipe-freedom.
pub proof fn lemma_pipe_free_skip(s: Seq<char>, k: int)
    requires
        !has_function_pipe(s),
        0 <= k <= s.len(),
    ensures
        !has_function_pipe(s.skip(k)),
{
    let t = s.skip(k);
    assert forall|i: int| 0 <= i && i + 1 < t.len() implies !((#[trigger] t[i]) == '>' && t[i + 1]
        == '>') by {
        assert(t[i] == s[k + i] && t[i + 1] == s[k + i + 1]);
    }
}

} // verus!
