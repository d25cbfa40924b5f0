use vstd::prelude::*;

use crate::text::{chars_of, join_with_space, join_with_space_exec};

verus! {

pub open spec fn min3(a: nat, b: nat, c: nat) -> nat {
    if a <= b && a <= c {
        a
    } else if b <= c {
        b
    } else {
        c
    }
}

/// Edit distance: the least number of character insertions, deletions and
/// substitutions turning `a` into `b`.
pub open spec fn lev(a: Seq<char>, b: Seq<char>) -> nat
    decreases a.len() + b.len(),
{
    if a.len() == 0 {
        b.len()
    } else if b.len() == 0 {
        a.len()
    } else {
        min3(
            (lev(a.drop_last(), b) + 1) as nat,
            (lev(a, b.drop_last()) + 1) as nat,
            (lev(a.drop_last(), b.drop_last()) + if a.last() == b.last() {
                0nat
            } else {
                1nat
            }) as nat,
        )
    }
}

pub open spec fn max_len(a: Seq<char>, b: Seq<char>) -> nat {
    if a.len() >= b.len() {
        a.len()
    } else {
        b.len()
    }
}

/// Edit distance never exceeds the longer length.
pub proof fn lemma_lev_le_max(a: Seq<char>, b: Seq<char>)
    ensures
        lev(a, b) <= max_len(a, b),
    decreases a.len() + b.len(),
{
    if a.len() == 0 || b.len() == 0 {
    } else {
        lemma_lev_le_max(a.drop_last(), b.drop_last());
    }
}

/// The edit-distance recurrence on prefixes, as the table fills it in.
proof fn lemma_lev_step(a: Seq<char>, b: Seq<char>, i: int, j: int)
    requires
        1 <= i <= a.len(),
        1 <= j <= b.len(),
    ensures
        lev(a.take(i), b.take(j)) == min3(
            (lev(a.take(i - 1), b.take(j)) + 1) as nat,
            (lev(a.take(i), b.take(j - 1)) + 1) as nat,
            (lev(a.take(i - 1), b.take(j - 1)) + if a[i - 1] == b[j - 1] {
                0nat
            } else {
                1nat
            }) as nat,
        ),
{
    assert(a.take(i).len() == i);
    assert(b.take(j).len() == j);
    assert(a.take(i).last() == a[i - 1]);
    assert(b.take(j).last() == b[j - 1]);
    assert(a.take(i).drop_last() =~= a.take(i - 1));
    assert(b.take(j).drop_last() =~= b.take(j - 1));
}

proof fn lemma_lev_empty_left(b: Seq<char>, j: int)
    requires
        0 <= j <= b.len(),
    ensures
        lev(Seq::<char>::empty(), b.take(j)) == j,
{
    assert(b.take(j).len() == j);
}

/// Edit distance by the usual row-by-row table.
pub fn levenshtein(a: &Vec<char>, b: &Vec<char>) -> (r: usize)
    requires
        a@.len() < u32::MAX,
        b@.len() < u32::MAX,
    ensures
        r == lev(a@, b@),
{
    let n = a.len();
    let m = b.len();
    let mut prev: Vec<usize> = Vec::new();
    let mut j: usize = 0;
    while j <= m
        invariant
            m == b@.len() < u32::MAX,
            0 <= j <= m + 1,
            prev@.len() == j,
            forall|t: int| 0 <= t < j ==> prev@[t] == lev(a@.take(0), b@.take(t)),
        decreases m + 1 - j,
    {
        proof {
            assert(a@.take(0) =~= Seq::<char>::empty());
            lemma_lev_empty_left(b@, j as int);
        }
        prev.push(j);
        j += 1;
    }
    let mut i: usize = 1;
    while i <= n
        invariant
            n == a@.len() < u32::MAX,
            m == b@.len() < u32::MAX,
            1 <= i <= n + 1,
            prev@.len() == m + 1,
            forall|t: int| 0 <= t <= m ==> prev@[t] == lev(a@.take(i - 1), b@.take(t)),
        decreases n + 1 - i,
    {
        let mut cur: Vec<usize> = Vec::new();
        proof {
            assert(b@.take(0) =~= Seq::<char>::empty());
        }
        cur.push(i);
        let mut k: usize = 1;
        while k <= m
            invariant
                n == a@.len() < u32::MAX,
                m == b@.len() < u32::MAX,
                1 <= i <= n,
                1 <= k <= m + 1,
                prev@.len() == m + 1,
                cur@.len() == k,
                forall|t: int| 0 <= t <= m ==> prev@[t] == lev(a@.take(i - 1), b@.take(t)),
                forall|t: int| 0 <= t < k ==> cur@[t] == lev(a@.take(i as int), b@.take(t)),
            decreases m + 1 - k,
        {
            proof {
                lemma_lev_step(a@, b@, i as int, k as int);
                lemma_lev_le_max(a@.take(i - 1), b@.take(k as int));
                lemma_lev_le_max(a@.take(i as int), b@.take(k - 1));
                lemma_lev_le_max(a@.take(i - 1), b@.take(k - 1));
            }
            let del = prev[k] + 1;
            let ins = cur[k - 1] + 1;
            let same = a[i - 1] == b[k - 1];
            let sub = if same {
                prev[k - 1]
            } else {
                prev[k - 1] + 1
            };
            let best = if del <= ins && del <= sub {
                del
            } else if ins <= sub {
                ins
            } else {
                sub
            };
            cur.push(best);
            k += 1;
        }
        prev = cur;
        i += 1;
    }
    proof {
        assert(a@.take(n as int) =~= a@);
        assert(b@.take(m as int) =~= b@);
    }
    prev[m]
}

/// Similarity as a percentage: 100 for two empty strings, otherwise
/// 100 * (longer length - edit distance) / longer length, rounded down.
pub open spec fn spec_similarity(a: Seq<char>, b: Seq<char>) -> int {
    if max_len(a, b) == 0 {
        100
    } else {
        (100 * (max_len(a, b) - lev(a, b))) / max_len(a, b) as int
    }
}

pub fn similarity(a: &Vec<char>, b: &Vec<char>) -> (r: u32)
    requires
        a@.len() < u32::MAX,
        b@.len() < u32::MAX,
    ensures
        r == spec_similarity(a@, b@),
        r <= 100,
{
    let maxlen = if a.len() >= b.len() {
        a.len()
    } else {
        b.len()
    };
    if maxlen == 0 {
        return 100;
    }
    let d = levenshtein(a, b);
    proof {
        lemma_lev_le_max(a@, b@);
        assert((100 * (maxlen - d)) / (maxlen as int) <= 100) by (nonlinear_arith)
            requires
                0 <= d <= maxlen,
                0 < maxlen,
        ;
    }
    let num = 100u64 * ((maxlen - d) as u64);
    let r = (num / (maxlen as u64)) as u32;
    r
}

/// The index of the first space in `s`, or its length when there is none.
pub open spec fn first_space(s: Seq<char>) -> int
    decreases s.len(),
{
    if s.len() == 0 {
        0
    } else if s[0] == ' ' {
        0
    } else {
        1 + first_space(s.drop_first())
    }
}

proof fn lemma_first_space_at(s: Seq<char>, k: int)
    requires
        0 <= k <= s.len(),
        forall|j: int| 0 <= j < k ==> s[j] != ' ',
        k < s.len() ==> s[k] == ' ',
    ensures
        first_space(s) == k,
    decreases s.len(),
{
    if s.len() == 0 {
    } else if s[0] == ' ' {
    } else {
        assert(forall|j: int| 0 <= j < k - 1 ==> s.drop_first()[j] == s[j + 1]);
        lemma_first_space_at(s.drop_first(), k - 1);
    }
}

proof fn lemma_first_space_bounds(s: Seq<char>)
    ensures
        0 <= first_space(s) <= s.len(),
    decreases s.len(),
{
    if s.len() == 0 || s[0] == ' ' {
    } else {
        lemma_first_space_bounds(s.drop_first());
    }
}

/// The string cut at its spaces, empties kept, so that joining the pieces
/// with single spaces rebuilds it exactly.
pub open spec fn split_spaces(s: Seq<char>) -> Seq<Seq<char>>
    decreases s.len(),
    via split_spaces_decreases
{
    let k = first_space(s);
    if k == s.len() {
        seq![s]
    } else {
        seq![s.take(k)] + split_spaces(s.subrange(k + 1, s.len() as int))
    }
}

#[via_fn]
proof fn split_spaces_decreases(s: Seq<char>) {
    lemma_first_space_bounds(s);
}

/// Cut a string at its spaces, keeping empty pieces.
pub fn split_spaces_exec(s: &str) -> (r: Vec<String>)
    ensures
        r@.map_values(|t: String| t@) =~= split_spaces(s@),
        forall|i: int| 0 <= i < r@.len() ==> #[trigger] r@[i]@.len() <= s@.len(),
{
    let n = s.unicode_len();
    let mut tokens: Vec<String> = Vec::new();
    let mut pos: usize = 0;
    proof {
        assert(s@.subrange(0, n as int) =~= s@);
        assert(tokens@.map_values(|t: String| t@) =~= Seq::<Seq<char>>::empty());
    }
    loop
        invariant
            n == s@.len(),
            0 <= pos <= n,
            split_spaces(s@) =~= tokens@.map_values(|t: String| t@) + split_spaces(
                s@.subrange(pos as int, n as int),
            ),
            forall|i: int| 0 <= i < tokens@.len() ==> #[trigger] tokens@[i]@.len() <= s@.len(),
        ensures
            tokens@.map_values(|t: String| t@) =~= split_spaces(s@),
        decreases n - pos + 1,
    {
        let ghost suffix = s@.subrange(pos as int, n as int);
        let ghost pre_map = tokens@.map_values(|t: String| t@);
        let mut k: usize = pos;
        while k < n && s.get_char(k) != ' '
            invariant
                n == s@.len(),
                pos <= k <= n,
                forall|j: int| pos <= j < k ==> s@[j] != ' ',
            decreases n - k,
        {
            k += 1;
        }
        proof {
            assert(forall|j: int| 0 <= j < k - pos ==> suffix[j] == s@[j + pos]);
            lemma_first_space_at(suffix, k - pos);
        }
        let tok = s.substring_char(pos, k);
        let owned = tok.to_owned();
        tokens.push(owned);
        proof {
            assert(tok@ =~= suffix.take(k - pos));
            assert(tokens@.map_values(|t: String| t@) =~= pre_map.push(tok@));
        }
        if k == n {
            proof {
                assert(suffix =~= suffix.take(k - pos));
                assert(first_space(suffix) == suffix.len());
                assert(split_spaces(suffix) =~= seq![suffix]);
                assert(pre_map.push(tok@) =~= pre_map + seq![suffix]);
                assert(tokens@.map_values(|t: String| t@) =~= split_spaces(s@));
            }
            return tokens;
        }
        proof {
            assert(first_space(suffix) == k - pos < suffix.len());
            assert(split_spaces(suffix) =~= seq![suffix.take(k - pos)] + split_spaces(
                suffix.subrange(k - pos + 1, suffix.len() as int),
            ));
            assert(suffix.subrange(k - pos + 1, suffix.len() as int) =~= s@.subrange(
                k + 1,
                n as int,
            ));
            assert(pre_map.push(tok@) + split_spaces(s@.subrange(k + 1, n as int)) =~= pre_map + (
            seq![tok@] + split_spaces(s@.subrange(k + 1, n as int))));
        }
        pos = k + 1;
    }
}

/// The index of the first custom word with the greatest similarity to the
/// token.
pub open spec fn best_idx(tok: Seq<char>, words: Seq<Seq<char>>) -> int
    decreases words.len(),
{
    if words.len() <= 1 {
        0
    } else {
        let p = best_idx(tok, words.drop_last());
        if spec_similarity(tok, words.last()) > spec_similarity(tok, words[p]) {
            words.len() - 1
        } else {
            p
        }
    }
}

proof fn lemma_best_idx_in_range(tok: Seq<char>, words: Seq<Seq<char>>)
    requires
        words.len() > 0,
    ensures
        0 <= best_idx(tok, words) < words.len(),
    decreases words.len(),
{
    if words.len() > 1 {
        lemma_best_idx_in_range(tok, words.drop_last());
    }
}

/// What the fuzzy corrector makes of one token: the closest custom word
/// when its similarity reaches the threshold, else the token itself.
/// Empty tokens are never touched, so spacing survives.
pub open spec fn spec_correct_token(tok: Seq<char>, words: Seq<Seq<char>>, threshold: u32) -> Seq<
    char,
> {
    if tok.len() == 0 || words.len() == 0 {
        tok
    } else {
        let b = best_idx(tok, words);
        if spec_similarity(tok, words[b]) >= threshold {
            words[b]
        } else {
            tok
        }
    }
}

fn correct_token(tok: &String, words: &Vec<String>, threshold: u32) -> (r: String)
    requires
        tok@.len() < u32::MAX,
        forall|i: int| 0 <= i < words@.len() ==> #[trigger] words@[i]@.len() < u32::MAX,
    ensures
        r@ == spec_correct_token(tok@, words@.map_values(|w: String| w@), threshold),
{
    let ghost wviews = words@.map_values(|w: String| w@);
    if tok.as_str().is_empty() || words.len() == 0 {
        return tok.clone();
    }
    let tok_chars = chars_of(tok.as_str());
    let first_chars = chars_of(words[0].as_str());
    let mut best: usize = 0;
    let mut best_sim: u32 = similarity(&tok_chars, &first_chars);
    let mut k: usize = 1;
    while k < words.len()
        invariant
            wviews == words@.map_values(|w: String| w@),
            tok_chars@ == tok@,
            tok@.len() < u32::MAX,
            forall|i: int| 0 <= i < words@.len() ==> #[trigger] words@[i]@.len() < u32::MAX,
            words@.len() > 0,
            1 <= k <= words@.len(),
            0 <= best < k,
            best == best_idx(tok@, wviews.take(k as int)),
            best_sim == spec_similarity(tok@, wviews[best as int]),
        decreases words@.len() - k,
    {
        let w_chars = chars_of(words[k].as_str());
        let sim = similarity(&tok_chars, &w_chars);
        proof {
            assert(wviews.take(k + 1).drop_last() =~= wviews.take(k as int));
            assert(wviews.take(k + 1).last() == wviews[k as int]);
            lemma_best_idx_in_range(tok@, wviews.take(k as int));
            assert(wviews.take(k as int)[best as int] == wviews[best as int]);
        }
        if sim > best_sim {
            best = k;
            best_sim = sim;
        }
        k += 1;
    }
    proof {
        assert(wviews.take(words@.len() as int) =~= wviews);
    }
    if best_sim >= threshold {
        words[best].clone()
    } else {
        tok.clone()
    }
}

/// Whether every piece of text involved stays under the machine bound the
/// corrector needs.
pub open spec fn words_bounded(words: Seq<Seq<char>>) -> bool {
    forall|i: int| 0 <= i < words.len() ==> #[trigger] words[i].len() < u32::MAX
}

/// The fuzzy custom-word correction over a whole text: every
/// space-separated token is replaced by its closest custom word when
/// similarity reaches the threshold. Pure, and idempotent on
/// already-corrected text.
pub open spec fn spec_apply_custom_words(
    text: Seq<char>,
    words: Seq<Seq<char>>,
    threshold: u32,
) -> Seq<char> {
    join_with_space(
        split_spaces(text).map_values(|t: Seq<char>| spec_correct_token(t, words, threshold)),
    )
}

/// Apply the custom-word corrector to a text.
pub fn apply_custom_words(text: &str, words: &Vec<String>, threshold: u32) -> (r: String)
    requires
        text@.len() < u32::MAX,
        forall|i: int| 0 <= i < words@.len() ==> #[trigger] words@[i]@.len() < u32::MAX,
    ensures
        r@ == spec_apply_custom_words(text@, words@.map_values(|w: String| w@), threshold),
{
    let ghost wviews = words@.map_values(|w: String| w@);
    let tokens = split_spaces_exec(text);
    let mut corrected: Vec<String> = Vec::new();
    let mut k: usize = 0;
    while k < tokens.len()
        invariant
            wviews == words@.map_values(|w: String| w@),
            text@.len() < u32::MAX,
            forall|i: int| 0 <= i < words@.len() ==> #[trigger] words@[i]@.len() < u32::MAX,
            forall|i: int| 0 <= i < tokens@.len() ==> #[trigger] tokens@[i]@.len() <= text@.len(),
            0 <= k <= tokens@.len(),
            corrected@.len() == k,
            forall|i: int|
                0 <= i < k ==> #[trigger] corrected@[i]@ == spec_correct_token(
                    tokens@[i]@,
                    wviews,
                    threshold,
                ),
        decreases tokens@.len() - k,
    {
        let c = correct_token(&tokens[k], words, threshold);
        corrected.push(c);
        k += 1;
    }
    let r = join_with_space_exec(&corrected);
    proof {
        assert(corrected@.map_values(|p: String| p@) =~= tokens@.map_values(
            |t: String| t@,
        ).map_values(|t: Seq<char>| spec_correct_token(t, wviews, threshold)));
        assert(tokens@.map_values(|t: String| t@) =~= split_spaces(text@));
    }
    r
}

proof fn lemma_lev_self(a: Seq<char>)
    ensures
        lev(a, a) == 0,
    decreases a.len(),
{
    if a.len() > 0 {
        lemma_lev_self(a.drop_last());
    }
}

proof fn lemma_lev_zero(a: Seq<char>, b: Seq<char>)
    requires
        lev(a, b) == 0,
    ensures
        a =~= b,
    decreases a.len() + b.len(),
{
    if a.len() == 0 || b.len() == 0 {
    } else {
        // deleting or inserting costs at least one, so only the
        // substitution branch can vanish, and only on equal last characters
        assert(a.last() == b.last());
        lemma_lev_zero(a.drop_last(), b.drop_last());
        assert forall|i: int| 0 <= i < a.len() implies a[i] == b[i] by {
            if i < a.len() - 1 {
                assert(a.drop_last()[i] == b.drop_last()[i]);
            }
        }
    }
}

/// Similarity ranges over 0..=100, and reaches 100 exactly on equal
/// strings.
pub proof fn lemma_similarity_bounds(a: Seq<char>, b: Seq<char>)
    ensures
        0 <= spec_similarity(a, b) <= 100,
        spec_similarity(a, b) == 100 <==> a =~= b,
{
    let m = max_len(a, b) as int;
    if m == 0 {
        assert(a =~= b);
    } else {
        lemma_lev_le_max(a, b);
        let l = lev(a, b) as int;
        let x = 100 * (m - l);
        vstd::arithmetic::div_mod::lemma_div_multiples_vanish(0, m);
        vstd::arithmetic::div_mod::lemma_div_is_ordered(0, x, m);
        vstd::arithmetic::div_mod::lemma_div_is_ordered(x, m * 100, m);
        vstd::arithmetic::div_mod::lemma_div_multiples_vanish(100, m);
        assert(spec_similarity(a, b) <= 100);
        if l == 0 {
            lemma_lev_zero(a, b);
            assert(x == m * 100);
        } else {
            // a positive distance keeps the quotient under 100
            vstd::arithmetic::div_mod::lemma_fundamental_div_mod(x, m);
            let q = x / m;
            if q >= 100 {
                assert(q * m >= 100 * m) by (nonlinear_arith)
                    requires
                        q >= 100,
                        m > 0,
                ;
                assert(x == m * q + x % m);
                assert(false);
            }
            if a =~= b {
                lemma_lev_self(a);
            }
        }
    }
}

proof fn lemma_best_idx_maximal(tok: Seq<char>, words: Seq<Seq<char>>)
    requires
        words.len() > 0,
    ensures
        0 <= best_idx(tok, words) < words.len(),
        forall|j: int|
            0 <= j < words.len() ==> spec_similarity(tok, #[trigger] words[j]) <= spec_similarity(
                tok,
                words[best_idx(tok, words)],
            ),
    decreases words.len(),
{
    lemma_best_idx_in_range(tok, words);
    if words.len() > 1 {
        lemma_best_idx_maximal(tok, words.drop_last());
        let p = best_idx(tok, words.drop_last());
        assert forall|j: int|
            0 <= j < words.len() implies spec_similarity(tok, #[trigger] words[j])
            <= spec_similarity(tok, words[best_idx(tok, words)]) by {
            if j < words.len() - 1 {
                assert(words.drop_last()[j] == words[j]);
                assert(words.drop_last()[p] == words[p]);
            }
        }
    }
}

/// Correcting a token twice is the same as correcting it once.
pub proof fn lemma_correct_token_idempotent(
    tok: Seq<char>,
    words: Seq<Seq<char>>,
    threshold: u32,
)
    ensures
        spec_correct_token(spec_correct_token(tok, words, threshold), words, threshold)
            == spec_correct_token(tok, words, threshold),
{
    let c = spec_correct_token(tok, words, threshold);
    if tok.len() == 0 || words.len() == 0 {
    } else {
        let b = best_idx(tok, words);
        lemma_best_idx_in_range(tok, words);
        if spec_similarity(tok, words[b]) >= threshold {
            // the token was replaced by its closest word
            lemma_similarity_bounds(tok, words[b]);
            if c.len() > 0 {
                let b2 = best_idx(c, words);
                lemma_best_idx_maximal(c, words);
                lemma_similarity_bounds(c, words[b]);
                assert(c =~= words[b]);
                assert(spec_similarity(c, words[b]) == 100);
                assert(spec_similarity(c, words[b2]) >= 100);
                lemma_similarity_bounds(c, words[b2]);
                assert(words[b2] =~= c);
            }
        }
    }
}

/// Text without spaces: what the splitter hands out, and what glossary
/// words must be for the corrector to be idempotent.
pub open spec fn space_free(t: Seq<char>) -> bool {
    forall|i: int| 0 <= i < t.len() ==> t[i] != ' '
}

proof fn lemma_first_space_props(s: Seq<char>)
    ensures
        0 <= first_space(s) <= s.len(),
        forall|j: int| 0 <= j < first_space(s) ==> s[j] != ' ',
    decreases s.len(),
{
    if s.len() == 0 || s[0] == ' ' {
    } else {
        lemma_first_space_props(s.drop_first());
        assert forall|j: int| 0 <= j < first_space(s) implies s[j] != ' ' by {
            if j > 0 {
                assert(s.drop_first()[j - 1] == s[j]);
            }
        }
    }
}

proof fn lemma_split_tokens_space_free(s: Seq<char>)
    ensures
        split_spaces(s).len() >= 1,
        forall|i: int|
            0 <= i < split_spaces(s).len() ==> space_free(#[trigger] split_spaces(s)[i]),
    decreases s.len(),
{
    lemma_first_space_props(s);
    let k = first_space(s);
    if k == s.len() {
        assert(split_spaces(s) == seq![s]);
    } else {
        let rest = s.subrange(k + 1, s.len() as int);
        lemma_split_tokens_space_free(rest);
        assert forall|i: int|
            0 <= i < split_spaces(s).len() implies space_free(#[trigger] split_spaces(s)[i]) by {
            if i == 0 {
                assert(split_spaces(s)[0] =~= s.take(k));
                assert forall|j: int| 0 <= j < s.take(k).len() implies s.take(k)[j] != ' ' by {}
            } else {
                assert(split_spaces(s)[i] == split_spaces(rest)[i - 1]);
            }
        }
    }
}

proof fn lemma_join_front(ts: Seq<Seq<char>>)
    requires
        ts.len() >= 2,
    ensures
        join_with_space(ts) =~= ts[0] + seq![' '] + join_with_space(ts.drop_first()),
    decreases ts.len(),
{
    if ts.len() == 2 {
        assert(ts.drop_last()[0] == ts[0]);
        assert(join_with_space(ts.drop_last()) == ts[0]);
        assert(join_with_space(ts.drop_first()) == ts.drop_first()[0]);
        assert(ts.drop_first()[0] == ts[1]);
    } else {
        lemma_join_front(ts.drop_last());
        assert(ts.drop_last()[0] == ts[0]);
        assert(ts.drop_last().drop_first() =~= ts.drop_first().drop_last());
        assert(ts.drop_first().last() == ts.last());
        assert(join_with_space(ts.drop_first()) == join_with_space(ts.drop_first().drop_last())
            + seq![' '] + ts.drop_first().last());
        assert(join_with_space(ts) =~= ts[0] + seq![' '] + join_with_space(ts.drop_first()));
    }
}

proof fn lemma_split_join(ts: Seq<Seq<char>>)
    requires
        ts.len() >= 1,
        forall|i: int| 0 <= i < ts.len() ==> space_free(#[trigger] ts[i]),
    ensures
        split_spaces(join_with_space(ts)) =~= ts,
    decreases ts.len(),
{
    if ts.len() == 1 {
        let t = ts[0];
        assert(join_with_space(ts) == t);
        lemma_first_space_at(t, t.len() as int);
        assert(split_spaces(t) == seq![t]);
        assert(seq![t] =~= ts);
    } else {
        lemma_join_front(ts);
        let s = join_with_space(ts);
        let t0 = ts[0];
        let rest = join_with_space(ts.drop_first());
        assert(s =~= t0 + seq![' '] + rest);
        assert forall|j: int| 0 <= j < t0.len() implies s[j] != ' ' by {
            assert(s[j] == t0[j]);
        }
        assert(s[t0.len() as int] == ' ');
        lemma_first_space_at(s, t0.len() as int);
        assert(s.take(t0.len() as int) =~= t0);
        assert(s.subrange(t0.len() as int + 1, s.len() as int) =~= rest);
        lemma_split_join(ts.drop_first());
        assert(split_spaces(s) == seq![s.take(t0.len() as int)] + split_spaces(
            s.subrange(t0.len() as int + 1, s.len() as int),
        ));
        assert(split_spaces(s) =~= ts);
    }
}

/// The custom-word corrector is pure and idempotent on already-corrected
/// text: applying it a second time changes nothing, provided no glossary
/// word itself contains a space (a word with a space would split apart on
/// the second pass).
pub proof fn lemma_apply_custom_words_idempotent(
    text: Seq<char>,
    words: Seq<Seq<char>>,
    threshold: u32,
)
    requires
        forall|i: int| 0 <= i < words.len() ==> space_free(#[trigger] words[i]),
    ensures
        spec_apply_custom_words(spec_apply_custom_words(text, words, threshold), words, threshold)
            == spec_apply_custom_words(text, words, threshold),
{
    let toks = split_spaces(text);
    let corrected = toks.map_values(|t: Seq<char>| spec_correct_token(t, words, threshold));
    lemma_split_tokens_space_free(text);
    assert forall|i: int| 0 <= i < corrected.len() implies space_free(#[trigger] corrected[i]) by {
        assert(corrected[i] == spec_correct_token(toks[i], words, threshold));
        if toks[i].len() > 0 && words.len() > 0 {
            lemma_best_idx_in_range(toks[i], words);
        }
    }
    lemma_split_join(corrected);
    let twice = split_spaces(join_with_space(corrected)).map_values(
        |t: Seq<char>| spec_correct_token(t, words, threshold),
    );
    assert forall|i: int| 0 <= i < corrected.len() implies twice[i] == corrected[i] by {
        lemma_correct_token_idempotent(toks[i], words, threshold);
    }
    assert(twice =~= corrected);
}

} // verus!
