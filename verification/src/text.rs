//! Character-level text helpers with specifications over `Seq<char>`.

use vstd::prelude::*;
use vstd::string::*;

verus! {

/// Appends one character to a string (`String::push`).
#[verifier::external_body]
pub(crate) fn push_char(s: &mut String, c: char)
    ensures
        final(s)@ == old(s)@.push(c),
{
    s.push(c);
}

/// The characters of `s`, in order.
pub fn chars_of(s: &str) -> (v: Vec<char>)
    ensures
        v@ == s@,
{
    let n = s.unicode_len();
    let mut v: Vec<char> = Vec::new();
    let mut i: usize = 0;
    while i < n
        invariant
            n == s@.len(),
            i <= n,
            v@ == s@.subrange(0, i as int),
        decreases n - i,
    {
        let c = s.get_char(i);
        v.push(c);
        i += 1;
        assert(v@ =~= s@.subrange(0, i as int));
    }
    assert(v@ =~= s@);
    v
}

/// A string holding exactly the given characters.
pub fn string_of(chars: &[char]) -> (s: String)
    ensures
        s@ == chars@,
{
    let mut s = String::new();
    let mut i: usize = 0;
    while i < chars.len()
        invariant
            i <= chars@.len(),
            s@ == chars@.subrange(0, i as int),
        decreases chars@.len() - i,
    {
        push_char(&mut s, chars[i]);
        i += 1;
        assert(s@ =~= chars@.subrange(0, i as int));
    }
    assert(s@ =~= chars@);
    s
}

/// A fresh string with the same characters as `s`.
pub fn owned(s: &str) -> (r: String)
    ensures
        r@ == s@,
{
    String::from_str(s)
}

/// Character-wise equality of two sequences held in vectors.
pub fn chars_eq(a: &[char], b: &[char]) -> (r: bool)
    ensures
        r == (a@ == b@),
{
    if a.len() != b.len() {
        return false;
    }
    let mut i: usize = 0;
    while i < a.len()
        invariant
            a@.len() == b@.len(),
            i <= a@.len(),
            forall|j: int| 0 <= j < i ==> a@[j] == b@[j],
        decreases a@.len() - i,
    {
        if a[i] != b[i] {
            return false;
        }
        i += 1;
    }
    assert(a@ =~= b@);
    true
}

/// Whether two strings hold the same characters.
pub fn str_eq(a: &str, b: &str) -> (r: bool)
    ensures
        r == (a@ == b@),
{
    let va = chars_of(a);
    let vb = chars_of(b);
    chars_eq(va.as_slice(), vb.as_slice())
}

/// Whether `prefix` is a prefix of `s`.
pub open spec fn has_prefix(s: Seq<char>, prefix: Seq<char>) -> bool {
    prefix.len() <= s.len() && s.subrange(0, prefix.len() as int) == prefix
}

/// Whether `s` begins with `prefix`.
pub fn starts_with(s: &[char], prefix: &[char]) -> (r: bool)
    ensures
        r == has_prefix(s@, prefix@),
{
    if prefix.len() > s.len() {
        return false;
    }
    let mut i: usize = 0;
    while i < prefix.len()
        invariant
            prefix@.len() <= s@.len(),
            i <= prefix@.len(),
            forall|j: int| 0 <= j < i ==> s@[j] == prefix@[j],
        decreases prefix@.len() - i,
    {
        if s[i] != prefix[i] {
            assert(s@.subrange(0, prefix@.len() as int)[i as int] != prefix@[i as int]);
            return false;
        }
        i += 1;
    }
    assert(s@.subrange(0, prefix@.len() as int) =~= prefix@);
    true
}

/// The part of `s` after `prefix`, where `s` begins with it.
pub fn strip_prefix(s: &[char], prefix: &[char]) -> (r: Option<Vec<char>>)
    ensures
        r matches Some(rest) ==> has_prefix(s@, prefix@) && rest@ == s@.subrange(
            prefix@.len() as int,
            s@.len() as int,
        ),
        r is None ==> !has_prefix(s@, prefix@),
{
    if !starts_with(s, prefix) {
        return None;
    }
    let mut rest: Vec<char> = Vec::new();
    let mut i: usize = prefix.len();
    while i < s.len()
        invariant
            prefix@.len() <= i <= s@.len(),
            rest@ == s@.subrange(prefix@.len() as int, i as int),
        decreases s@.len() - i,
    {
        rest.push(s[i]);
        i += 1;
        assert(rest@ =~= s@.subrange(prefix@.len() as int, i as int));
    }
    Some(rest)
}

/// ASCII upper-case letters map to lower case; every other character is kept.
pub open spec fn lower_char(c: char) -> char {
    if 'A' <= c && c <= 'Z' {
        ((c as u32) + 32) as char
    } else {
        c
    }
}

/// `s` with its ASCII letters in lower case (`to_ascii_lowercase`).
pub open spec fn ascii_lower(s: Seq<char>) -> Seq<char> {
    s.map_values(|c: char| lower_char(c))
}

/// ASCII lower-case letters map to upper case; every other character is kept.
pub open spec fn upper_char(c: char) -> char {
    if 'a' <= c && c <= 'z' {
        ((c as u32) - 32) as char
    } else {
        c
    }
}

/// `s` with its ASCII letters in upper case (`to_ascii_uppercase`).
pub open spec fn ascii_upper(s: Seq<char>) -> Seq<char> {
    s.map_values(|c: char| upper_char(c))
}

/// `s` with ASCII letters in upper case.
pub fn uppercase_chars(s: &[char]) -> (r: Vec<char>)
    ensures
        r@ == ascii_upper(s@),
{
    let mut r: Vec<char> = Vec::new();
    let mut i: usize = 0;
    while i < s.len()
        invariant
            i <= s@.len(),
            r@ == ascii_upper(s@.subrange(0, i as int)),
        decreases s@.len() - i,
    {
        let c = s[i];
        let u = if 'a' <= c && c <= 'z' {
            let code: u32 = (c as u32) - 32;
            char_from_ascii(code)
        } else {
            c
        };
        r.push(u);
        i += 1;
        assert(r@ =~= ascii_upper(s@.subrange(0, i as int)));
    }
    assert(s@.subrange(0, s@.len() as int) =~= s@);
    r
}

/// `lower_char` computed.
pub fn to_lower_char(c: char) -> (r: char)
    ensures
        r == lower_char(c),
{
    if 'A' <= c && c <= 'Z' {
        let code: u32 = (c as u32) + 32;
        assert(code <= 0x7f);
        char_from_ascii(code)
    } else {
        c
    }
}

/// The ASCII character with the given code.
fn char_from_ascii(code: u32) -> (c: char)
    requires
        code <= 0x7f,
    ensures
        c == code as char,
{
    let b: u8 = code as u8;
    b as char
}

/// `s` with ASCII letters in lower case.
pub fn lowercase_chars(s: &[char]) -> (r: Vec<char>)
    ensures
        r@ == ascii_lower(s@),
{
    let mut r: Vec<char> = Vec::new();
    let mut i: usize = 0;
    while i < s.len()
        invariant
            i <= s@.len(),
            r@ == ascii_lower(s@.subrange(0, i as int)),
        decreases s@.len() - i,
    {
        let c = to_lower_char(s[i]);
        r.push(c);
        i += 1;
        assert(r@ =~= ascii_lower(s@.subrange(0, i as int)));
    }
    assert(s@.subrange(0, s@.len() as int) =~= s@);
    r
}

/// Whether `a` and `b` are equal up to ASCII case (`eq_ignore_ascii_case`).
pub fn eq_ignore_ascii_case(a: &[char], b: &[char]) -> (r: bool)
    ensures
        r == (ascii_lower(a@) == ascii_lower(b@)),
{
    let la = lowercase_chars(a);
    let lb = lowercase_chars(b);
    chars_eq(la.as_slice(), lb.as_slice())
}

/// The decimal digit character for `d < 10`.
pub open spec fn digit_char(d: nat) -> char {
    ((48 + d) as u32) as char
}

/// The decimal rendering of `n`, as `to_string` gives it for an unsigned integer.
pub open spec fn decimal(n: nat) -> Seq<char>
    decreases n,
{
    if n < 10 {
        seq![digit_char(n)]
    } else {
        decimal(n / 10).push(digit_char(n % 10))
    }
}

/// The decimal digits of `n`.
pub fn decimal_text(n: u64) -> (s: String)
    ensures
        s@ == decimal(n as nat),
{
    let v = decimal_chars(n);
    string_of(v.as_slice())
}

/// The decimal digits of `n`, as characters.
pub fn decimal_chars(n: u64) -> (v: Vec<char>)
    ensures
        v@ == decimal(n as nat),
    decreases n,
{
    if n < 10 {
        let d = char_from_ascii(48 + n as u32);
        let mut v: Vec<char> = Vec::new();
        v.push(d);
        assert(v@ =~= seq![digit_char(n as nat)]);
        v
    } else {
        let mut v = decimal_chars(n / 10);
        let d = char_from_ascii(48 + (n % 10) as u32);
        v.push(d);
        v
    }
}

/// The white-space characters of Unicode (`char::is_whitespace`).
pub open spec fn is_white(c: char) -> bool {
    let u = c as u32;
    (0x09 <= u && u <= 0x0d) || u == 0x20 || u == 0x85 || u == 0xa0 || u == 0x1680 || (0x2000 <= u
        && u <= 0x200a) || u == 0x2028 || u == 0x2029 || u == 0x202f || u == 0x205f || u == 0x3000
}

/// `char::is_whitespace`.
pub fn is_white_char(c: char) -> (r: bool)
    ensures
        r == is_white(c),
{
    let u = c as u32;
    (0x09 <= u && u <= 0x0d) || u == 0x20 || u == 0x85 || u == 0xa0 || u == 0x1680 || (0x2000 <= u
        && u <= 0x200a) || u == 0x2028 || u == 0x2029 || u == 0x202f || u == 0x205f || u == 0x3000
}

/// Reading `s` left to right: the words completed so far and the word in progress.
pub open spec fn word_scan(s: Seq<char>) -> (Seq<Seq<char>>, Seq<char>)
    decreases s.len(),
{
    if s.len() == 0 {
        (Seq::empty(), Seq::empty())
    } else {
        let (done, cur) = word_scan(s.drop_last());
        let c = s.last();
        if is_white(c) {
            if cur.len() > 0 {
                (done.push(cur), Seq::empty())
            } else {
                (done, Seq::empty())
            }
        } else {
            (done, cur.push(c))
        }
    }
}

/// The maximal runs of non-white-space characters of `s`, in order (`split_whitespace`).
pub open spec fn words(s: Seq<char>) -> Seq<Seq<char>> {
    let (done, cur) = word_scan(s);
    if cur.len() > 0 {
        done.push(cur)
    } else {
        done
    }
}

/// The words of `s`.
pub fn split_words(s: &[char]) -> (r: Vec<Vec<char>>)
    ensures
        r@.map_values(|w: Vec<char>| w@) == words(s@),
{
    let mut done: Vec<Vec<char>> = Vec::new();
    let mut cur: Vec<char> = Vec::new();
    let mut i: usize = 0;
    while i < s.len()
        invariant
            i <= s@.len(),
            word_scan(s@.subrange(0, i as int)) == (done@.map_values(|w: Vec<char>| w@), cur@),
        decreases s@.len() - i,
    {
        let c = s[i];
        let ghost prefix = s@.subrange(0, i as int);
        assert(s@.subrange(0, i + 1).drop_last() =~= prefix);
        if is_white_char(c) {
            if cur.len() > 0 {
                let w = cur;
                done.push(w);
                cur = Vec::new();
            }
        } else {
            cur.push(c);
        }
        i += 1;
        assert(done@.map_values(|w: Vec<char>| w@) =~= word_scan(s@.subrange(0, i as int)).0);
        assert(cur@ =~= word_scan(s@.subrange(0, i as int)).1);
    }
    assert(s@.subrange(0, s@.len() as int) =~= s@);
    if cur.len() > 0 {
        done.push(cur);
    }
    assert(done@.map_values(|w: Vec<char>| w@) =~= words(s@));
    done
}

/// Reading `s` left to right: the non-empty pieces between `sep` characters completed so far and
/// the piece in progress.
pub open spec fn part_scan(s: Seq<char>, sep: char) -> (Seq<Seq<char>>, Seq<char>)
    decreases s.len(),
{
    if s.len() == 0 {
        (Seq::empty(), Seq::empty())
    } else {
        let (done, cur) = part_scan(s.drop_last(), sep);
        let c = s.last();
        if c == sep {
            if cur.len() > 0 {
                (done.push(cur), Seq::empty())
            } else {
                (done, Seq::empty())
            }
        } else {
            (done, cur.push(c))
        }
    }
}

/// The non-empty pieces of `s` between `sep` characters, in order (`split(sep)` without the
/// empty pieces).
pub open spec fn parts(s: Seq<char>, sep: char) -> Seq<Seq<char>> {
    let (done, cur) = part_scan(s, sep);
    if cur.len() > 0 {
        done.push(cur)
    } else {
        done
    }
}

/// The non-empty pieces of `s` between `sep` characters.
pub fn split_parts(s: &[char], sep: char) -> (r: Vec<Vec<char>>)
    ensures
        r@.map_values(|w: Vec<char>| w@) == parts(s@, sep),
{
    let mut done: Vec<Vec<char>> = Vec::new();
    let mut cur: Vec<char> = Vec::new();
    let mut i: usize = 0;
    while i < s.len()
        invariant
            i <= s@.len(),
            part_scan(s@.subrange(0, i as int), sep) == (done@.map_values(|w: Vec<char>| w@), cur@),
        decreases s@.len() - i,
    {
        let c = s[i];
        let ghost prefix = s@.subrange(0, i as int);
        assert(s@.subrange(0, i + 1).drop_last() =~= prefix);
        if c == sep {
            if cur.len() > 0 {
                let w = cur;
                done.push(w);
                cur = Vec::new();
            }
        } else {
            cur.push(c);
        }
        i += 1;
        assert(done@.map_values(|w: Vec<char>| w@) =~= part_scan(s@.subrange(0, i as int), sep).0);
        assert(cur@ =~= part_scan(s@.subrange(0, i as int), sep).1);
    }
    assert(s@.subrange(0, s@.len() as int) =~= s@);
    if cur.len() > 0 {
        done.push(cur);
    }
    assert(done@.map_values(|w: Vec<char>| w@) =~= parts(s@, sep));
    done
}

/// The words of `parts` separated by `sep`.
pub open spec fn joined(parts: Seq<Seq<char>>, sep: Seq<char>) -> Seq<char>
    decreases parts.len(),
{
    if parts.len() == 0 {
        Seq::empty()
    } else if parts.len() == 1 {
        parts[0]
    } else {
        joined(parts.drop_last(), sep) + sep + parts.last()
    }
}

/// `parts` joined with `sep` between neighbours (`join`).
pub fn join_chars(parts: &Vec<Vec<char>>, sep: &[char]) -> (r: Vec<char>)
    ensures
        r@ == joined(parts@.map_values(|w: Vec<char>| w@), sep@),
{
    let ghost views = parts@.map_values(|w: Vec<char>| w@);
    let mut r: Vec<char> = Vec::new();
    let mut i: usize = 0;
    while i < parts.len()
        invariant
            i <= parts@.len(),
            views == parts@.map_values(|w: Vec<char>| w@),
            r@ == joined(views.subrange(0, i as int), sep@),
        decreases parts@.len() - i,
    {
        assert(views.subrange(0, i + 1).drop_last() =~= views.subrange(0, i as int));
        if i > 0 {
            append_chars(&mut r, sep);
        }
        append_chars(&mut r, parts[i].as_slice());
        i += 1;
        assert(r@ =~= joined(views.subrange(0, i as int), sep@));
    }
    assert(views.subrange(0, parts@.len() as int) =~= views);
    r
}

/// Appends the characters of `extra` to `v`.
pub fn append_chars(v: &mut Vec<char>, extra: &[char])
    ensures
        final(v)@ == old(v)@ + extra@,
{
    let ghost start = v@;
    let mut i: usize = 0;
    while i < extra.len()
        invariant
            i <= extra@.len(),
            v@ == start + extra@.subrange(0, i as int),
        decreases extra@.len() - i,
    {
        v.push(extra[i]);
        i += 1;
        assert(v@ =~= start + extra@.subrange(0, i as int));
    }
    assert(extra@.subrange(0, extra@.len() as int) =~= extra@);
}

/// `s` without white space at either end (`trim`).
pub open spec fn trimmed(s: Seq<char>) -> Seq<char> {
    if forall|j: int| 0 <= j < s.len() ==> is_white(#[trigger] s[j]) {
        Seq::empty()
    } else {
        let a = choose|a: int|
            0 <= a < s.len() && !is_white(#[trigger] s[a]) && forall|j: int|
                0 <= j < a ==> is_white(#[trigger] s[j]);
        let b = choose|b: int|
            a <= b < s.len() && !is_white(#[trigger] s[b]) && forall|j: int|
                b < j < s.len() ==> is_white(#[trigger] s[j]);
        s.subrange(a, b + 1)
    }
}

/// `s` with white space removed at both ends.
pub fn trim_chars(s: &[char]) -> (r: Vec<char>)
    ensures
        r@ == trimmed(s@),
{
    let n = s.len();
    let mut a: usize = 0;
    while a < n && is_white_char(s[a])
        invariant
            n == s@.len(),
            a <= n,
            forall|j: int| 0 <= j < a ==> is_white(#[trigger] s@[j]),
        decreases n - a,
    {
        a += 1;
    }
    if a == n {
        return Vec::new();
    }
    let mut b: usize = n - 1;
    while is_white_char(s[b])
        invariant
            n == s@.len(),
            a < n,
            a <= b < n,
            !is_white(s@[a as int]),
            forall|j: int| b < j < n ==> is_white(#[trigger] s@[j]),
        decreases b,
    {
        b -= 1;
    }
    let ghost ca = choose|x: int|
        0 <= x < s@.len() && !is_white(#[trigger] s@[x]) && forall|j: int|
            0 <= j < x ==> is_white(#[trigger] s@[j]);
    assert(ca == a) by {
        if ca < a {
            assert(is_white(s@[ca]));
        }
        if ca > a {
            assert(is_white(s@[a as int]));
        }
    }
    let ghost cb = choose|x: int|
        ca <= x < s@.len() && !is_white(#[trigger] s@[x]) && forall|j: int|
            x < j < s@.len() ==> is_white(#[trigger] s@[j]);
    assert(cb == b) by {
        assert(a <= b < s@.len() && !is_white(s@[b as int]) && forall|j: int|
            b < j < s@.len() ==> is_white(#[trigger] s@[j]));
        if cb < b {
            assert(is_white(s@[b as int]));
        }
        if cb > b {
            assert(is_white(s@[cb]));
        }
    }
    let mut r: Vec<char> = Vec::new();
    let mut i: usize = a;
    while i <= b
        invariant
            a <= i <= b + 1,
            b < n,
            n == s@.len(),
            r@ == s@.subrange(a as int, i as int),
        decreases b + 1 - i,
    {
        r.push(s[i]);
        i += 1;
        assert(r@ =~= s@.subrange(a as int, i as int));
    }
    r
}

/// `a` comes strictly before `b` in lexicographic order of code points (the order of `String`).
pub open spec fn lex_less(a: Seq<char>, b: Seq<char>) -> bool
    decreases a.len(),
{
    if a.len() == 0 {
        b.len() > 0
    } else if b.len() == 0 {
        false
    } else if a[0] != b[0] {
        (a[0] as int) < (b[0] as int)
    } else {
        lex_less(a.drop_first(), b.drop_first())
    }
}

/// Of two different strings one comes first.
pub proof fn lemma_lex_total(a: Seq<char>, b: Seq<char>)
    ensures
        lex_less(a, b) || a == b || lex_less(b, a),
        !(lex_less(a, b) && lex_less(b, a)),
        !lex_less(a, a),
    decreases a.len(),
{
    if a.len() > 0 {
        lemma_lex_total(a.drop_first(), a.drop_first());
    }
    if a.len() > 0 && b.len() > 0 {
        lemma_lex_total(a.drop_first(), b.drop_first());
        if a[0] == b[0] {
            if a.drop_first() == b.drop_first() {
                assert forall|i: int| 0 <= i < a.len() implies a[i] == b[i] by {
                    if i > 0 {
                        assert(a[i] == a.drop_first()[i - 1]);
                        assert(b[i] == b.drop_first()[i - 1]);
                    }
                }
                assert(a =~= b);
            }
        } else {
            assert((a[0] as int) != (b[0] as int));
        }
    } else if a.len() == 0 && b.len() == 0 {
        assert(a =~= b);
    }
}

/// Equal prefixes do not change the order.
proof fn lemma_lex_skip(a: Seq<char>, b: Seq<char>, i: int)
    requires
        0 <= i <= a.len(),
        i <= b.len(),
        a.subrange(0, i) == b.subrange(0, i),
    ensures
        lex_less(a, b) == lex_less(a.skip(i), b.skip(i)),
    decreases i,
{
    if i > 0 {
        assert(a[0] == a.subrange(0, i)[0]);
        assert(b[0] == b.subrange(0, i)[0]);
        assert(a.drop_first().subrange(0, i - 1) =~= a.subrange(0, i).drop_first());
        assert(b.drop_first().subrange(0, i - 1) =~= b.subrange(0, i).drop_first());
        lemma_lex_skip(a.drop_first(), b.drop_first(), i - 1);
        assert(a.drop_first().skip(i - 1) =~= a.skip(i));
        assert(b.drop_first().skip(i - 1) =~= b.skip(i));
    } else {
        assert(a.skip(0) =~= a);
        assert(b.skip(0) =~= b);
    }
}

/// Whether `a` comes strictly before `b` in lexicographic order.
pub fn str_less(a: &[char], b: &[char]) -> (r: bool)
    ensures
        r == lex_less(a@, b@),
{
    let mut i: usize = 0;
    while i < a.len() && i < b.len()
        invariant
            i <= a@.len(),
            i <= b@.len(),
            a@.subrange(0, i as int) == b@.subrange(0, i as int),
        decreases a@.len() - i,
    {
        if a[i] != b[i] {
            proof {
                lemma_lex_skip(a@, b@, i as int);
                assert(a@.skip(i as int)[0] == a@[i as int]);
                assert(b@.skip(i as int)[0] == b@[i as int]);
            }
            return a[i] < b[i];
        }
        assert(a@.subrange(0, i + 1) =~= a@.subrange(0, i as int).push(a@[i as int]));
        assert(b@.subrange(0, i + 1) =~= b@.subrange(0, i as int).push(b@[i as int]));
        i += 1;
    }
    proof {
        lemma_lex_skip(a@, b@, i as int);
    }
    a.len() < b.len()
}

} // verus!

verus! {

/// The characters of each string in `list`.
pub open spec fn views(list: Seq<String>) -> Seq<Seq<char>> {
    list.map_values(|x: String| x@)
}

/// Whether some string of `list` holds the characters of `s`.
pub fn contains_text(list: &[String], s: &str) -> (r: bool)
    ensures
        r == views(list@).contains(s@),
{
    let mut i: usize = 0;
    while i < list.len()
        invariant
            i <= list@.len(),
            forall|j: int| 0 <= j < i ==> list@[j]@ != s@,
        decreases list@.len() - i,
    {
        if str_eq(list[i].as_str(), s) {
            assert(views(list@)[i as int] == s@);
            return true;
        }
        i += 1;
    }
    assert(!views(list@).contains(s@)) by {
        if views(list@).contains(s@) {
            let k = choose|k: int| 0 <= k < views(list@).len() && views(list@)[k] == s@;
            assert(list@[k]@ == s@);
        }
    }
    false
}

/// A copy of a list of strings.
pub fn copy_strings(list: &[String]) -> (r: Vec<String>)
    ensures
        r@ == list@,
{
    let mut r: Vec<String> = Vec::new();
    let mut i: usize = 0;
    while i < list.len()
        invariant
            i <= list@.len(),
            r@ == list@.subrange(0, i as int),
        decreases list@.len() - i,
    {
        r.push(list[i].clone());
        i += 1;
        assert(r@ =~= list@.subrange(0, i as int));
    }
    assert(r@ =~= list@);
    r
}

/// A copy of an optional string.
pub fn copy_opt_string(s: &Option<String>) -> (r: Option<String>)
    ensures
        r == *s,
{
    match s {
        Some(v) => Some(v.clone()),
        None => None,
    }
}

/// What `str::to_uppercase` makes of a text (the Unicode upper-case mapping, which may change
/// the number of characters).
pub uninterp spec fn unicode_upper(s: Seq<char>) -> Seq<char>;

/// `str::to_uppercase`: the Unicode upper case of `s`, named by `unicode_upper`.
#[verifier::external_body]
pub(crate) fn upper_case(s: &str) -> (r: String)
    ensures
        r@ == unicode_upper(s@),
{
    s.to_uppercase()
}

/// What `str::to_lowercase` makes of a text (the Unicode lower-case mapping, which may change
/// the number of characters).
pub uninterp spec fn unicode_lower(s: Seq<char>) -> Seq<char>;

/// `str::to_lowercase`: the Unicode lower case of `s`, named by `unicode_lower`.
#[verifier::external_body]
pub(crate) fn lower_case(s: &str) -> (r: String)
    ensures
        r@ == unicode_lower(s@),
{
    s.to_lowercase()
}

/// How a `bool` is displayed.
pub open spec fn bool_text(b: bool) -> Seq<char> {
    if b {
        "true"@
    } else {
        "false"@
    }
}

/// How `b` is displayed.
pub fn bool_chars(b: bool) -> (r: Vec<char>)
    ensures
        r@ == bool_text(b),
{
    if b {
        chars_of("true")
    } else {
        chars_of("false")
    }
}

} // verus!
