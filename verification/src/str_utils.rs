//! Pure string transforms used by the identifier rewriter, and a small
//! indentation-aware text builder.
//!
//! All transforms are specified over `Seq<char>` views.  Case conversion is
//! ASCII: declaration identifiers in the supported headers are ASCII, and
//! characters outside `'A'..='Z'` / `'a'..='z'` are left unchanged.

use vstd::prelude::*;

verus! {

pub open spec fn is_upper_char(c: char) -> bool {
    'A' <= c && c <= 'Z'
}

pub open spec fn is_lower_char(c: char) -> bool {
    'a' <= c && c <= 'z'
}

/// ASCII lower-casing of one character; everything else is unchanged.
pub open spec fn lower_char(c: char) -> char {
    if is_upper_char(c) {
        ((c as u32) + 32) as char
    } else {
        c
    }
}

/// ASCII upper-casing of one character; everything else is unchanged.
pub open spec fn upper_char(c: char) -> char {
    if is_lower_char(c) {
        ((c as u32) - 32) as char
    } else {
        c
    }
}

pub fn to_lower_char(c: char) -> (r: char)
    ensures
        r == lower_char(c),
{
    if c >= 'A' && c <= 'Z' {
        let code: u32 = (c as u32) + 32;
        proof {
            assert(code < 256 ==> ((code as u8) as u32) == code) by (bit_vector);
        }
        (code as u8) as char
    } else {
        c
    }
}

pub fn to_upper_char(c: char) -> (r: char)
    ensures
        r == upper_char(c),
{
    if c >= 'a' && c <= 'z' {
        let code: u32 = (c as u32) - 32;
        proof {
            assert(code < 256 ==> ((code as u8) as u32) == code) by (bit_vector);
        }
        (code as u8) as char
    } else {
        c
    }
}

pub fn char_is_upper(c: char) -> (r: bool)
    ensures
        r == is_upper_char(c),
{
    c >= 'A' && c <= 'Z'
}

pub fn char_is_lower(c: char) -> (r: bool)
    ensures
        r == is_lower_char(c),
{
    c >= 'a' && c <= 'z'
}

/// Relies on `String::push`: appends exactly the given character.
#[verifier::external_body]
pub fn push_char(s: &mut String, c: char)
    ensures
        final(s)@ == old(s)@.push(c),
{
    s.push(c);
}

pub fn str_eq(a: &str, b: &str) -> (r: bool)
    ensures
        r == (a@ == b@),
{
    let n = a.unicode_len();
    if n != b.unicode_len() {
        return false;
    }
    let mut i: usize = 0;
    while i < n
        invariant
            n == a@.len(),
            n == b@.len(),
            i <= n,
            forall|k: int| 0 <= k < i ==> a@[k] == b@[k],
        decreases n - i,
    {
        if a.get_char(i) != b.get_char(i) {
            return false;
        }
        i = i + 1;
    }
    proof {
        assert(a@ =~= b@);
    }
    true
}

/// The character sequences of a list of strings, in order.
pub open spec fn spec_strings_view(v: Seq<String>) -> Seq<Seq<char>> {
    v.map_values(|s: String| s@)
}

pub proof fn lemma_strings_view_index(v: Seq<String>, i: int)
    requires
        0 <= i < v.len(),
    ensures
        spec_strings_view(v)[i] == v[i]@,
{
}

pub proof fn lemma_strings_view_push(v: Seq<String>, x: String)
    ensures
        spec_strings_view(v.push(x)) == spec_strings_view(v).push(x@),
{
    assert forall|i: int| 0 <= i < v.len() + 1 implies spec_strings_view(v.push(x))[i]
        == spec_strings_view(v).push(x@)[i] by {
        lemma_strings_view_index(v.push(x), i);
        if i < v.len() {
            lemma_strings_view_index(v, i);
        }
    }
    assert(spec_strings_view(v.push(x)) =~= spec_strings_view(v).push(x@));
}

/// Whether some string of the list has exactly the given characters.
pub fn contains_str(v: &Vec<String>, s: &str) -> (r: bool)
    ensures
        r == spec_strings_view(v@).contains(s@),
{
    let mut i: usize = 0;
    while i < v.len()
        invariant
            i <= v@.len(),
            forall|k: int| 0 <= k < i ==> v@[k]@ != s@,
        decreases v@.len() - i,
    {
        if str_eq(v[i].as_str(), s) {
            proof {
                lemma_strings_view_index(v@, i as int);
                assert(spec_strings_view(v@)[i as int] == s@);
            }
            return true;
        }
        i = i + 1;
    }
    proof {
        assert forall|k: int| 0 <= k < spec_strings_view(v@).len() implies spec_strings_view(
            v@,
        )[k] != s@ by {
            lemma_strings_view_index(v@, k);
        }
    }
    false
}

/// The pattern `p` occurs in `s` at character position `i`.
pub open spec fn spec_match_at(s: Seq<char>, p: Seq<char>, i: int) -> bool {
    i + p.len() <= s.len() && s.subrange(i, i + p.len() as int) == p
}

pub fn matches_at(s: &str, i: usize, pat: &str) -> (r: bool)
    requires
        i <= s@.len(),
    ensures
        r == spec_match_at(s@, pat@, i as int),
{
    let n = s.unicode_len();
    let p = pat.unicode_len();
    if p > n - i {
        false
    } else {
        str_eq(s.substring_char(i, i + p), pat)
    }
}

pub open spec fn spec_starts_with(s: Seq<char>, p: Seq<char>) -> bool {
    spec_match_at(s, p, 0)
}

pub fn str_starts_with(s: &str, pat: &str) -> (r: bool)
    ensures
        r == spec_starts_with(s@, pat@),
{
    matches_at(s, 0, pat)
}

/// The string with one leading occurrence of the prefix stripped; a string
/// that does not begin with the prefix is unchanged.
pub open spec fn spec_strip_prefix(s: Seq<char>, p: Seq<char>) -> Seq<char> {
    if spec_starts_with(s, p) {
        s.skip(p.len() as int)
    } else {
        s
    }
}

pub fn strip_prefix(s: &str, p: &str) -> (r: String)
    ensures
        r@ == spec_strip_prefix(s@, p@),
{
    if str_starts_with(s, p) {
        let n = s.unicode_len();
        let pl = p.unicode_len();
        let stripped = String::from_str(s.substring_char(pl, n));
        proof {
            assert(s@.subrange(pl as int, n as int) =~= s@.skip(pl as int));
        }
        stripped
    } else {
        String::from_str(s)
    }
}

pub open spec fn spec_ends_with(s: Seq<char>, p: Seq<char>) -> bool {
    p.len() <= s.len() && spec_match_at(s, p, s.len() - p.len())
}

pub fn str_ends_with(s: &str, pat: &str) -> (r: bool)
    ensures
        r == spec_ends_with(s@, pat@),
{
    let n = s.unicode_len();
    let p = pat.unicode_len();
    if p > n {
        false
    } else {
        matches_at(s, n - p, pat)
    }
}

/// Camel-case to snake-case, one character at a time: an upper-case letter
/// that follows a lower-case letter gets an underscore in front of it, and
/// every character is lower-cased.
pub open spec fn spec_camel_rec(s: Seq<char>, prev_lower: bool) -> Seq<char>
    decreases s.len(),
{
    if s.len() == 0 {
        Seq::empty()
    } else {
        let head: Seq<char> = if is_upper_char(s[0]) && prev_lower {
            seq!['_', lower_char(s[0])]
        } else {
            seq![lower_char(s[0])]
        };
        head + spec_camel_rec(s.drop_first(), is_lower_char(s[0]))
    }
}

pub open spec fn spec_camel_to_snake(s: Seq<char>) -> Seq<char> {
    spec_camel_rec(s, false)
}

pub fn camel_to_snake(input: &str) -> (r: String)
    ensures
        r@ == spec_camel_to_snake(input@),
{
    let n = input.unicode_len();
    let mut result = String::new();
    let mut prev_lower = false;
    let mut i: usize = 0;
    proof {
        assert(input@.skip(0) =~= input@);
        assert(result@ + spec_camel_to_snake(input@) =~= spec_camel_to_snake(input@));
    }
    while i < n
        invariant
            n == input@.len(),
            i <= n,
            prev_lower == (i > 0 && is_lower_char(input@[i - 1])),
            result@ + spec_camel_rec(input@.skip(i as int), prev_lower) == spec_camel_to_snake(
                input@,
            ),
        decreases n - i,
    {
        let ghost r0 = result@;
        let ghost rest = input@.skip(i as int);
        proof {
            assert(rest.drop_first() =~= input@.skip(i as int + 1));
            assert(rest[0] == input@[i as int]);
        }
        let c = input.get_char(i);
        if char_is_upper(c) && prev_lower {
            push_char(&mut result, '_');
        }
        push_char(&mut result, to_lower_char(c));
        proof {
            let head: Seq<char> = if is_upper_char(c) && prev_lower {
                seq!['_', lower_char(c)]
            } else {
                seq![lower_char(c)]
            };
            assert(result@ =~= r0 + head);
            assert((r0 + head) + spec_camel_rec(input@.skip(i as int + 1), is_lower_char(c)) =~= r0
                + (head + spec_camel_rec(input@.skip(i as int + 1), is_lower_char(c))));
        }
        prev_lower = char_is_lower(c);
        i = i + 1;
    }
    proof {
        assert(input@.skip(n as int) =~= Seq::<char>::empty());
        assert(result@ + Seq::<char>::empty() =~= result@);
    }
    result
}

/// Upper-snake to upper-camel: underscores separate words, the first letter
/// of each word is upper-cased, the rest are lower-cased, empty words vanish.
pub open spec fn spec_upper_camel_rec(s: Seq<char>, at_start: bool) -> Seq<char>
    decreases s.len(),
{
    if s.len() == 0 {
        Seq::empty()
    } else if s[0] == '_' {
        spec_upper_camel_rec(s.drop_first(), true)
    } else {
        let c = if at_start {
            upper_char(s[0])
        } else {
            lower_char(s[0])
        };
        seq![c] + spec_upper_camel_rec(s.drop_first(), false)
    }
}

pub open spec fn spec_upper_snake_to_upper_camel(s: Seq<char>) -> Seq<char> {
    spec_upper_camel_rec(s, true)
}

pub fn upper_snake_to_upper_camel_iter(input: &str) -> (r: String)
    ensures
        r@ == spec_upper_snake_to_upper_camel(input@),
{
    let n = input.unicode_len();
    let mut result = String::new();
    let mut at_start = true;
    let mut i: usize = 0;
    proof {
        assert(input@.skip(0) =~= input@);
        assert(result@ + spec_upper_snake_to_upper_camel(input@) =~= spec_upper_snake_to_upper_camel(
            input@,
        ));
    }
    while i < n
        invariant
            n == input@.len(),
            i <= n,
            result@ + spec_upper_camel_rec(input@.skip(i as int), at_start)
                == spec_upper_snake_to_upper_camel(input@),
        decreases n - i,
    {
        let ghost r0 = result@;
        let ghost rest = input@.skip(i as int);
        proof {
            assert(rest.drop_first() =~= input@.skip(i as int + 1));
            assert(rest[0] == input@[i as int]);
        }
        let c = input.get_char(i);
        if c == '_' {
            at_start = true;
        } else {
            let nc = if at_start {
                to_upper_char(c)
            } else {
                to_lower_char(c)
            };
            push_char(&mut result, nc);
            proof {
                assert(result@ =~= r0 + seq![nc]);
                assert((r0 + seq![nc]) + spec_upper_camel_rec(input@.skip(i as int + 1), false)
                    =~= r0 + (seq![nc] + spec_upper_camel_rec(input@.skip(i as int + 1), false)));
            }
            at_start = false;
        }
        i = i + 1;
    }
    proof {
        assert(input@.skip(n as int) =~= Seq::<char>::empty());
        assert(result@ + Seq::<char>::empty() =~= result@);
    }
    result
}

/// Snake-case conversion never leaves an upper-case character behind.
pub proof fn lemma_camel_rec_no_upper(s: Seq<char>, p: bool)
    ensures
        forall|i: int|
            0 <= i < spec_camel_rec(s, p).len() ==> !is_upper_char(#[trigger] spec_camel_rec(s, p)[i]),
    decreases s.len(),
{
    if s.len() > 0 {
        lemma_camel_rec_no_upper(s.drop_first(), is_lower_char(s[0]));
        let head: Seq<char> = if is_upper_char(s[0]) && p {
            seq!['_', lower_char(s[0])]
        } else {
            seq![lower_char(s[0])]
        };
        assert(!is_upper_char('_'));
        assert(!is_upper_char(lower_char(s[0])));
        assert forall|i: int| 0 <= i < spec_camel_rec(s, p).len() implies !is_upper_char(
            #[trigger] spec_camel_rec(s, p)[i],
        ) by {
            if i < head.len() {
                assert(spec_camel_rec(s, p)[i] == head[i]);
            } else {
                assert(spec_camel_rec(s, p)[i] == spec_camel_rec(
                    s.drop_first(),
                    is_lower_char(s[0]),
                )[i - head.len()]);
            }
        }
    }
}

/// Snake-case conversion leaves a string without upper-case characters
/// unchanged.
pub proof fn lemma_camel_rec_lower_fixed(s: Seq<char>, p: bool)
    requires
        forall|i: int| 0 <= i < s.len() ==> !is_upper_char(#[trigger] s[i]),
    ensures
        spec_camel_rec(s, p) == s,
    decreases s.len(),
{
    if s.len() > 0 {
        assert(!is_upper_char(s[0]));
        assert(forall|i: int|
            0 <= i < s.drop_first().len() ==> !is_upper_char(#[trigger] s.drop_first()[i]));
        lemma_camel_rec_lower_fixed(s.drop_first(), is_lower_char(s[0]));
        assert(seq![s[0]] + s.drop_first() =~= s);
    }
}

/// Converting camel case to snake case twice is the same as converting it
/// once.
pub proof fn lemma_camel_to_snake_idempotent(s: Seq<char>)
    ensures
        spec_camel_to_snake(spec_camel_to_snake(s)) == spec_camel_to_snake(s),
{
    lemma_camel_rec_no_upper(s, false);
    lemma_camel_rec_lower_fixed(spec_camel_to_snake(s), false);
}

/// Length of the longest common prefix of two strings.
pub open spec fn spec_lcp2(a: Seq<char>, b: Seq<char>) -> nat
    decreases a.len(),
{
    if a.len() == 0 || b.len() == 0 || a[0] != b[0] {
        0
    } else {
        1 + spec_lcp2(a.drop_first(), b.drop_first())
    }
}

pub proof fn lemma_lcp2_le(a: Seq<char>, b: Seq<char>)
    ensures
        spec_lcp2(a, b) <= a.len(),
        spec_lcp2(a, b) <= b.len(),
    decreases a.len(),
{
    if a.len() != 0 && b.len() != 0 && a[0] == b[0] {
        lemma_lcp2_le(a.drop_first(), b.drop_first());
    }
}

/// Longest prefix shared by `names[0]` and every later name, taken from
/// index `from` on; the first name's length caps the result.
pub open spec fn spec_min_lcp_from(first: Seq<char>, names: Seq<Seq<char>>, from: int) -> nat
    decreases names.len() - from,
{
    if from < 0 || from >= names.len() {
        first.len()
    } else {
        vstd::math::min(
            spec_lcp2(first, names[from]) as int,
            spec_min_lcp_from(first, names, from + 1) as int,
        ) as nat
    }
}

/// Length of the longest prefix shared by every name in the list; zero when
/// the list holds fewer than two names.
pub open spec fn spec_common_prefix(names: Seq<Seq<char>>) -> nat {
    if names.len() < 2 {
        0
    } else {
        spec_min_lcp_from(names[0], names, 1)
    }
}

fn lcp2(a: &str, b: &str) -> (r: usize)
    ensures
        r == spec_lcp2(a@, b@),
{
    let na = a.unicode_len();
    let nb = b.unicode_len();
    let mut i: usize = 0;
    proof {
        assert(a@.skip(0) =~= a@);
        assert(b@.skip(0) =~= b@);
    }
    loop
        invariant
            na == a@.len(),
            nb == b@.len(),
            i <= na,
            i <= nb,
            spec_lcp2(a@, b@) == i + spec_lcp2(a@.skip(i as int), b@.skip(i as int)),
        decreases na - i,
    {
        if i >= na || i >= nb {
            return i;
        }
        proof {
            assert(a@.skip(i as int).drop_first() =~= a@.skip(i as int + 1));
            assert(b@.skip(i as int).drop_first() =~= b@.skip(i as int + 1));
            assert(a@.skip(i as int)[0] == a@[i as int]);
            assert(b@.skip(i as int)[0] == b@[i as int]);
        }
        if a.get_char(i) != b.get_char(i) {
            return i;
        }
        i = i + 1;
    }
}

proof fn lemma_min_lcp_from_le(first: Seq<char>, names: Seq<Seq<char>>, from: int)
    ensures
        spec_min_lcp_from(first, names, from) <= first.len(),
    decreases names.len() - from,
{
    if 0 <= from && from < names.len() {
        lemma_min_lcp_from_le(first, names, from + 1);
    }
}

pub fn common_prefix_iter(names: &Vec<String>) -> (r: usize)
    ensures
        r == spec_common_prefix(spec_strings_view(names@)),
{
    let ghost m = spec_strings_view(names@);
    if names.len() < 2 {
        return 0;
    }
    let first: &String = &names[0];
    let nf = first.as_str().unicode_len();
    let mut best = nf;
    let mut j: usize = 1;
    proof {
        lemma_strings_view_index(names@, 0);
        assert(m[0] == names@[0]@);
        lemma_min_lcp_from_le(m[0], m, 1);
    }
    while j < names.len()
        invariant
            1 <= j <= names.len(),
            2 <= names.len(),
            m == spec_strings_view(names@),
            m.len() == names@.len(),
            first@ == m[0],
            nf == first@.len(),
            best <= nf,
            vstd::math::min(best as int, spec_min_lcp_from(m[0], m, j as int) as int)
                == spec_min_lcp_from(m[0], m, 1),
        decreases names.len() - j,
    {
        let l = lcp2(first.as_str(), &names[j]);
        proof {
            lemma_strings_view_index(names@, j as int);
            assert(m[j as int] == names@[j as int]@);
            lemma_lcp2_le(m[0], m[j as int]);
        }
        if l < best {
            best = l;
        }
        j = j + 1;
    }
    best
}

/// Left-to-right, non-overlapping replacement of every occurrence of `pat`
/// by `to`.
pub open spec fn spec_replace(s: Seq<char>, pat: Seq<char>, to: Seq<char>) -> Seq<char>
    decreases s.len(),
{
    if pat.len() == 0 || s.len() < pat.len() {
        s
    } else if s.take(pat.len() as int) == pat {
        to + spec_replace(s.skip(pat.len() as int), pat, to)
    } else {
        seq![s[0]] + spec_replace(s.drop_first(), pat, to)
    }
}

pub fn replace_all(s: &str, pat: &str, to: &str) -> (r: String)
    requires
        pat@.len() > 0,
    ensures
        r@ == spec_replace(s@, pat@, to@),
{
    let n = s.unicode_len();
    let p = pat.unicode_len();
    let mut result = String::new();
    let mut i: usize = 0;
    proof {
        assert(s@.skip(0) =~= s@);
        assert(result@ + spec_replace(s@, pat@, to@) =~= spec_replace(s@, pat@, to@));
    }
    while i < n
        invariant
            n == s@.len(),
            p == pat@.len(),
            0 < p,
            i <= n,
            result@ + spec_replace(s@.skip(i as int), pat@, to@) == spec_replace(s@, pat@, to@),
        decreases n - i,
    {
        let ghost r0 = result@;
        let ghost rest = s@.skip(i as int);
        if matches_at(s, i, pat) {
            proof {
                assert(rest.take(p as int) =~= s@.subrange(i as int, i + p));
                assert(rest.skip(p as int) =~= s@.skip(i + p));
                assert(spec_replace(rest, pat@, to@) == to@ + spec_replace(
                    s@.skip(i + p),
                    pat@,
                    to@,
                ));
            }
            result.append(to);
            proof {
                assert((r0 + to@) + spec_replace(s@.skip(i + p), pat@, to@) =~= r0 + (to@
                    + spec_replace(s@.skip(i + p), pat@, to@)));
            }
            i = i + p;
        } else {
            proof {
                if rest.len() >= p {
                    assert(rest.take(p as int) =~= s@.subrange(i as int, i + p));
                }
                assert(rest.drop_first() =~= s@.skip(i as int + 1));
                assert(rest[0] == s@[i as int]);
            }
            let c = s.get_char(i);
            push_char(&mut result, c);
            proof {
                assert(result@ =~= r0 + seq![c]);
                assert((r0 + seq![c]) + spec_replace(s@.skip(i as int + 1), pat@, to@) =~= r0 + (
                seq![c] + spec_replace(s@.skip(i as int + 1), pat@, to@)));
            }
            i = i + 1;
        }
    }
    proof {
        assert(s@.skip(n as int) =~= Seq::<char>::empty());
        assert(result@ + Seq::<char>::empty() =~= result@);
    }
    result
}

pub open spec fn is_space_char(c: char) -> bool {
    c == ' ' || c == '\t' || c == '\n' || c == '\r'
}

pub open spec fn spec_trim_start(s: Seq<char>) -> Seq<char>
    decreases s.len(),
{
    if s.len() > 0 && is_space_char(s[0]) {
        spec_trim_start(s.drop_first())
    } else {
        s
    }
}

pub open spec fn spec_trim_end(s: Seq<char>) -> Seq<char>
    decreases s.len(),
{
    if s.len() > 0 && is_space_char(s.last()) {
        spec_trim_end(s.drop_last())
    } else {
        s
    }
}

/// The string without leading and trailing whitespace.
pub open spec fn spec_trim(s: Seq<char>) -> Seq<char> {
    spec_trim_end(spec_trim_start(s))
}

proof fn lemma_trim_start_skip(s: Seq<char>, k: int)
    requires
        0 <= k <= s.len(),
        forall|j: int| 0 <= j < k ==> is_space_char(s[j]),
        k == s.len() || !is_space_char(s[k]),
    ensures
        spec_trim_start(s) == s.skip(k),
    decreases k,
{
    if k == 0 {
        assert(s.skip(0) =~= s);
    } else {
        let t = s.drop_first();
        assert(forall|j: int| 0 <= j < k - 1 ==> is_space_char(t[j]));
        lemma_trim_start_skip(t, k - 1);
        assert(t.skip(k - 1) =~= s.skip(k));
    }
}

proof fn lemma_trim_end_take(s: Seq<char>, k: int)
    requires
        0 <= k <= s.len(),
        forall|j: int| k <= j < s.len() ==> is_space_char(s[j]),
        k == 0 || !is_space_char(s[k - 1]),
    ensures
        spec_trim_end(s) == s.take(k),
    decreases s.len() - k,
{
    if k == s.len() {
        assert(s.take(k) =~= s);
    } else {
        let t = s.drop_last();
        assert(forall|j: int| k <= j < t.len() ==> is_space_char(t[j]));
        lemma_trim_end_take(t, k);
        assert(t.take(k) =~= s.take(k));
    }
}

pub fn is_space(c: char) -> (r: bool)
    ensures
        r == is_space_char(c),
{
    c == ' ' || c == '\t' || c == '\n' || c == '\r'
}

/// Strips leading and trailing ASCII whitespace.
pub fn trim(s: &str) -> (r: String)
    ensures
        r@ == spec_trim(s@),
{
    let n = s.unicode_len();
    let mut start: usize = 0;
    while start < n && is_space(s.get_char(start))
        invariant
            n == s@.len(),
            start <= n,
            forall|j: int| 0 <= j < start ==> is_space_char(s@[j]),
        decreases n - start,
    {
        start = start + 1;
    }
    let mut end: usize = n;
    while end > start && is_space(s.get_char(end - 1))
        invariant
            n == s@.len(),
            start <= end <= n,
            forall|j: int| end <= j < n ==> is_space_char(s@[j]),
        decreases end,
    {
        end = end - 1;
    }
    proof {
        lemma_trim_start_skip(s@, start as int);
        let t = s@.skip(start as int);
        lemma_trim_end_take(t, end - start);
        assert(t.take(end - start) =~= s@.subrange(start as int, end as int));
    }
    String::from_str(s.substring_char(start, end))
}

/// Four spaces for every pending indentation level.
pub open spec fn spec_indent(n: nat) -> Seq<char>
    decreases n,
{
    if n == 0 {
        Seq::empty()
    } else {
        spec_indent((n - 1) as nat) + seq![' ', ' ', ' ', ' ']
    }
}

/// One emitted line: the pending indentation, the text, a newline.
pub open spec fn spec_line_text(tabs: nat, v: Seq<char>) -> Seq<char> {
    spec_indent(tabs) + v + seq!['\n']
}

/// Helper struct for building indentation-aware output text.
pub struct StringBuilder {
    tab_count: u32,
    content: String,
}

impl StringBuilder {
    /// The text accumulated so far.
    pub closed spec fn spec_content(&self) -> Seq<char> {
        self.content@
    }

    /// The current indentation depth.
    pub closed spec fn spec_tabs(&self) -> nat {
        self.tab_count as nat
    }

    pub fn new() -> (r: Self)
        ensures
            r.spec_tabs() == 0,
            r.spec_content() == Seq::<char>::empty(),
    {
        Self { tab_count: 0, content: String::new() }
    }

    pub fn tab(&mut self)
        requires
            old(self).spec_tabs() < 0xffff_ffff,
        ensures
            final(self).spec_tabs() == old(self).spec_tabs() + 1,
            final(self).spec_content() == old(self).spec_content(),
    {
        self.tab_count = self.tab_count + 1;
    }

    pub fn end_tab(&mut self)
        ensures
            final(self).spec_tabs() == if old(self).spec_tabs() > 0 {
                (old(self).spec_tabs() - 1) as nat
            } else {
                0nat
            },
            final(self).spec_content() == old(self).spec_content(),
    {
        if self.tab_count > 0 {
            self.tab_count = self.tab_count - 1;
        }
    }

    pub fn clear_tab(&mut self)
        ensures
            final(self).spec_tabs() == 0,
            final(self).spec_content() == old(self).spec_content(),
    {
        self.tab_count = 0;
    }

    pub fn push_str(&mut self, v: &str)
        ensures
            final(self).spec_tabs() == old(self).spec_tabs(),
            final(self).spec_content() == old(self).spec_content() + v@,
    {
        self.content.append(v);
    }

    /// Writes `v` as one line: indentation, text, newline.
    pub fn line(&mut self, v: &str)
        ensures
            final(self).spec_tabs() == old(self).spec_tabs(),
            final(self).spec_content() == old(self).spec_content() + spec_line_text(
                old(self).spec_tabs(),
                v@,
            ),
    {
        let ghost c0 = self.content@;
        let tabs = self.tab_count;
        let mut k: u32 = 0;
        proof {
            assert(c0 + spec_indent(0) =~= c0);
        }
        while k < tabs
            invariant
                k <= tabs,
                self.tab_count == tabs,
                self.content@ == c0 + spec_indent(k as nat),
            decreases tabs - k,
        {
            self.content.append("    ");
            proof {
                reveal_strlit("    ");
                assert("    "@ =~= seq![' ', ' ', ' ', ' ']);
                assert((c0 + spec_indent(k as nat)) + seq![' ', ' ', ' ', ' '] =~= c0 + spec_indent(
                    (k + 1) as nat,
                ));
            }
            k = k + 1;
        }
        self.content.append(v);
        self.content.append("\n");
        proof {
            reveal_strlit("\n");
            assert("\n"@ =~= seq!['\n']);
            assert(((c0 + spec_indent(tabs as nat)) + v@) + seq!['\n'] =~= c0 + spec_line_text(
                tabs as nat,
                v@,
            ));
        }
    }

    pub fn take_result(self) -> (r: String)
        ensures
            r@ == self.spec_content(),
    {
        self.content
    }

    pub fn clone_result(&self) -> (r: String)
        ensures
            r@ == self.spec_content(),
    {
        self.content.clone()
    }

    /// Opens a scope line (`... {`), runs `fun` one level deeper, closes the
    /// scope with `}` or `};`.
    pub fn scope<F: FnOnce(StringBuilder) -> StringBuilder>(
        self,
        before_scope: &str,
        with_semicolon: bool,
        fun: F,
    ) -> (r: StringBuilder)
        requires
            self.spec_tabs() < 0xffff_ffff,
            forall|b: StringBuilder|
                (b.spec_tabs() == self.spec_tabs() + 1 && b.spec_content() == self.spec_content()
                    + spec_line_text(self.spec_tabs(), spec_scope_header(before_scope@)))
                    ==> call_requires(fun, (b,)),
        ensures
            exists|mid: StringBuilder, out: StringBuilder|
                {
                    &&& mid.spec_tabs() == self.spec_tabs() + 1
                    &&& mid.spec_content() == self.spec_content() + spec_line_text(
                        self.spec_tabs(),
                        spec_scope_header(before_scope@),
                    )
                    &&& call_ensures(fun, (mid,), out)
                    &&& r.spec_tabs() == (if out.spec_tabs() > 0 {
                        (out.spec_tabs() - 1) as nat
                    } else {
                        0nat
                    })
                    &&& r.spec_content() == out.spec_content() + spec_line_text(
                        r.spec_tabs(),
                        spec_scope_close(with_semicolon),
                    )
                },
    {
        let mut b = self;
        if before_scope.unicode_len() == 0 {
            b.line("{");
            proof {
                reveal_strlit("{");
                assert("{"@ =~= spec_scope_header(before_scope@));
            }
        } else {
            let mut hdr = String::from_str(before_scope);
            hdr.append(" {");
            b.line(hdr.as_str());
            proof {
                reveal_strlit(" {");
                assert(" {"@ =~= seq![' ', '{']);
                assert(before_scope@ + seq![' ', '{'] =~= spec_scope_header(before_scope@));
            }
        }
        b.tab();
        let mut out = fun(b);
        out.end_tab();
        if with_semicolon {
            out.line("};");
            proof {
                reveal_strlit("};");
                assert("};"@ =~= spec_scope_close(true));
            }
        } else {
            out.line("}");
            proof {
                reveal_strlit("}");
                assert("}"@ =~= spec_scope_close(false));
            }
        }
        out
    }
}

/// The text put on the line that opens a scope.
pub open spec fn spec_scope_header(before: Seq<char>) -> Seq<char> {
    if before.len() == 0 {
        seq!['{']
    } else {
        before + seq![' ', '{']
    }
}

/// The text put on the line that closes a scope.
pub open spec fn spec_scope_close(with_semicolon: bool) -> Seq<char> {
    if with_semicolon {
        seq!['}', ';']
    } else {
        seq!['}']
    }
}

/// Upper-case every character.
pub open spec fn spec_upper_all(s: Seq<char>) -> Seq<char> {
    Seq::new(s.len(), |i: int| upper_char(s[i]))
}

pub fn to_uppercase(s: &str) -> (r: String)
    ensures
        r@ == spec_upper_all(s@),
{
    let n = s.unicode_len();
    let mut result = String::new();
    let mut i: usize = 0;
    while i < n
        invariant
            n == s@.len(),
            i <= n,
            result@ =~= spec_upper_all(s@).take(i as int),
        decreases n - i,
    {
        let c = s.get_char(i);
        push_char(&mut result, to_upper_char(c));
        proof {
            assert(result@ =~= spec_upper_all(s@).take(i + 1));
        }
        i = i + 1;
    }
    proof {
        assert(spec_upper_all(s@).take(n as int) =~= spec_upper_all(s@));
    }
    result
}

} // verus!
