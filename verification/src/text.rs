//! Text primitives over `Seq<char>`: trimming, case folding, splitting, joining and decimals.

use vstd::prelude::*;
use vstd::string::*;

verus! {

broadcast use {
    vstd::string::group_string_axioms,
    vstd::seq::group_seq_axioms,
};

/// The Unicode `White_Space` property.
pub open spec fn is_space(c: char) -> bool {
    ||| 0x9 <= c as u32 <= 0xd
    ||| c as u32 == 0x20
    ||| c as u32 == 0x85
    ||| c as u32 == 0xa0
    ||| c as u32 == 0x1680
    ||| 0x2000 <= c as u32 <= 0x200a
    ||| c as u32 == 0x2028
    ||| c as u32 == 0x2029
    ||| c as u32 == 0x202f
    ||| c as u32 == 0x205f
    ||| c as u32 == 0x3000
}

/// Tells whether a character is white space.
pub fn char_is_space(c: char) -> (r: bool)
    ensures
        r == is_space(c),
{
    let n: u32 = c as u32;
    (0x9 <= n && n <= 0xd) || n == 0x20 || n == 0x85 || n == 0xa0 || n == 0x1680 || (0x2000 <= n
        && n <= 0x200a) || n == 0x2028 || n == 0x2029 || n == 0x202f || n == 0x205f || n == 0x3000
}

/// ASCII lower case of one character.
pub open spec fn lower_char(c: char) -> char {
    if 'A' <= c <= 'Z' {
        ((c as u8) + 32) as char
    } else {
        c
    }
}

/// ASCII upper case of one character.
pub open spec fn upper_char(c: char) -> char {
    if 'a' <= c <= 'z' {
        ((c as u8) - 32) as char
    } else {
        c
    }
}

/// ASCII lower case of a text.
pub open spec fn lower(s: Seq<char>) -> Seq<char> {
    s.map_values(|c: char| lower_char(c))
}

/// ASCII upper case of a text.
pub open spec fn upper(s: Seq<char>) -> Seq<char> {
    s.map_values(|c: char| upper_char(c))
}

/// Appends one character; `String::push` appends the given character to the end of the string.
#[verifier::external_body]
pub(crate) fn push_char(s: &mut String, c: char)
    ensures
        final(s)@ == old(s)@.push(c),
{
    s.push(c);
}

/// The characters of a text.
pub fn chars_of(s: &str) -> (r: Vec<char>)
    ensures
        r@ == s@,
{
    let mut out: Vec<char> = Vec::new();
    for c in iter: s.chars()
        invariant
            out@ == s@.take(iter.index() as int),
            iter.seq() == s@,
    {
        out.push(c);
    }
    out
}


/// A text of the given characters.
pub fn string_of(cs: &[char]) -> (r: String)
    ensures
        r@ == cs@,
{
    let mut out: String = String::new();
    let mut i: usize = 0;
    while i < cs.len()
        invariant
            i <= cs@.len(),
            out@ == cs@.take(i as int),
        decreases cs.len() - i,
    {
        push_char(&mut out, cs[i]);
        proof {
            assert(cs@.take(i as int).push(cs@[i as int]) =~= cs@.take(i + 1));
        }
        i = i + 1;
    }
    proof {
        assert(cs@.take(cs@.len() as int) =~= cs@);
    }
    out
}

/// Tells whether two texts are the same.
pub fn str_eq(a: &str, b: &str) -> (r: bool)
    ensures
        r == (a@ == b@),
{
    let x = a.to_owned();
    let y = b.to_owned();
    x == y
}

/// Tells whether an optional text is present and equal to the given one.
pub fn opt_is(a: &Option<String>, b: &str) -> (r: bool)
    ensures
        r == (a is Some && a->0@ == b@),
{
    match a {
        Some(x) => str_eq(x.as_str(), b),
        None => false,
    }
}

/// The view of an optional text.
pub open spec fn opt_view(a: Option<String>) -> Option<Seq<char>> {
    match a {
        Some(x) => Some(x@),
        None => None,
    }
}

/// A copy of an optional text.
pub fn clone_opt(a: &Option<String>) -> (r: Option<String>)
    ensures
        r == *a,
{
    match a {
        Some(x) => Some(x.clone()),
        None => None,
    }
}

/// The views of a list of texts.
pub open spec fn views(v: Seq<String>) -> Seq<Seq<char>> {
    v.map_values(|s: String| s@)
}

/// A copy of a list of texts.
pub fn clone_list(v: &Vec<String>) -> (r: Vec<String>)
    ensures
        r@ == v@,
{
    let mut out: Vec<String> = Vec::new();
    let mut i: usize = 0;
    while i < v.len()
        invariant
            i <= v@.len(),
            out@ == v@.take(i as int),
        decreases v.len() - i,
    {
        out.push(v[i].clone());
        proof {
            assert(v@.take(i as int).push(v@[i as int]) =~= v@.take(i + 1));
        }
        i = i + 1;
    }
    proof {
        assert(v@.take(v@.len() as int) =~= v@);
    }
    out
}

/// The concatenation of two texts.
pub fn cat2(a: &str, b: &str) -> (r: String)
    ensures
        r@ == a@ + b@,
{
    let mut out = a.to_owned();
    out.append(b);
    out
}

/// The concatenation of three texts.
pub fn cat3(a: &str, b: &str, c: &str) -> (r: String)
    ensures
        r@ == a@ + b@ + c@,
{
    let mut out = cat2(a, b);
    out.append(c);
    out
}

/// The concatenation of four texts.
pub fn cat4(a: &str, b: &str, c: &str, d: &str) -> (r: String)
    ensures
        r@ == a@ + b@ + c@ + d@,
{
    let mut out = cat3(a, b, c);
    out.append(d);
    out
}

/// The concatenation of five texts.
pub fn cat5(a: &str, b: &str, c: &str, d: &str, e: &str) -> (r: String)
    ensures
        r@ == a@ + b@ + c@ + d@ + e@,
{
    let mut out = cat4(a, b, c, d);
    out.append(e);
    out
}

/// The concatenation of six texts.
pub fn cat6(a: &str, b: &str, c: &str, d: &str, e: &str, f: &str) -> (r: String)
    ensures
        r@ == a@ + b@ + c@ + d@ + e@ + f@,
{
    let mut out = cat5(a, b, c, d, e);
    out.append(f);
    out
}

/// The concatenation of seven texts.
pub fn cat7(a: &str, b: &str, c: &str, d: &str, e: &str, f: &str, g: &str) -> (r: String)
    ensures
        r@ == a@ + b@ + c@ + d@ + e@ + f@ + g@,
{
    let mut out = cat6(a, b, c, d, e, f);
    out.append(g);
    out
}

/// The text without leading white space.
pub open spec fn trim_start(s: Seq<char>) -> Seq<char>
    decreases s.len(),
{
    if s.len() > 0 && is_space(s[0]) {
        trim_start(s.drop_first())
    } else {
        s
    }
}

/// The text without trailing white space.
pub open spec fn trim_end(s: Seq<char>) -> Seq<char>
    decreases s.len(),
{
    if s.len() > 0 && is_space(s.last()) {
        trim_end(s.drop_last())
    } else {
        s
    }
}

/// The text without white space at either end.
pub open spec fn trim(s: Seq<char>) -> Seq<char> {
    trim_end(trim_start(s))
}

/// Tells whether nothing but white space is in the text.
pub open spec fn blank(s: Seq<char>) -> bool {
    trim(s).len() == 0
}

/// `s` trimmed, as a slice of `s`.
pub fn str_trim<'a>(s: &'a str) -> (r: &'a str)
    ensures
        r@ == trim(s@),
{
    let t = str_trim_start(s);
    let cs = chars_of(t);
    let mut j: usize = cs.len();
    proof {
        assert(t@.take(j as int) =~= t@);
    }
    while j > 0 && char_is_space(cs[j - 1])
        invariant
            j <= cs@.len(),
            cs@ == t@,
            trim_end(t@) == trim_end(t@.take(j as int)),
        decreases j,
    {
        proof {
            let p = t@.take(j as int);
            assert(p.last() == cs@[j - 1]);
            assert(p.drop_last() =~= t@.take(j - 1));
        }
        j = j - 1;
    }
    proof {
        let p = t@.take(j as int);
        if j > 0 {
            assert(p.last() == cs@[j - 1]);
        }
        assert(t@.subrange(0, j as int) =~= p);
    }
    t.substring_char(0, j)
}

/// `s` without leading white space, as a slice of `s`.
pub fn str_trim_start<'a>(s: &'a str) -> (r: &'a str)
    ensures
        r@ == trim_start(s@),
{
    let cs = chars_of(s);
    let mut i: usize = 0;
    proof {
        assert(s@.skip(0) =~= s@);
    }
    while i < cs.len() && char_is_space(cs[i])
        invariant
            i <= cs@.len(),
            cs@ == s@,
            trim_start(s@) == trim_start(s@.skip(i as int)),
        decreases cs.len() - i,
    {
        proof {
            let p = s@.skip(i as int);
            assert(p[0] == cs@[i as int]);
            assert(p.drop_first() =~= s@.skip(i + 1));
        }
        i = i + 1;
    }
    proof {
        let p = s@.skip(i as int);
        if i < cs@.len() {
            assert(p[0] == cs@[i as int]);
        }
        assert(s@.subrange(i as int, s@.len() as int) =~= p);
    }
    s.substring_char(i, cs.len())
}

/// Tells whether nothing but white space is in the text.
pub fn str_blank(s: &str) -> (r: bool)
    ensures
        r == blank(s@),
{
    str_trim(s).is_empty()
}

/// `s` in ASCII lower case.
pub fn str_lower(s: &str) -> (r: String)
    ensures
        r@ == lower(s@),
{
    let mut out: String = String::new();
    let cs = chars_of(s);
    let mut i: usize = 0;
    while i < cs.len()
        invariant
            i <= cs@.len(),
            cs@ == s@,
            out@ == lower(s@.take(i as int)),
        decreases cs.len() - i,
    {
        let c = cs[i];
        if c >= 'A' && c <= 'Z' {
            push_char(&mut out, ((c as u8) + 32) as char);
        } else {
            push_char(&mut out, c);
        }
        proof {
            assert(lower(s@.take(i + 1)) =~= lower(s@.take(i as int)).push(
                lower_char(cs@[i as int]),
            ));
        }
        i = i + 1;
    }
    proof {
        assert(s@.take(s@.len() as int) =~= s@);
    }
    out
}

/// `s` in ASCII upper case.
pub fn str_upper(s: &str) -> (r: String)
    ensures
        r@ == upper(s@),
{
    let mut out: String = String::new();
    let cs = chars_of(s);
    let mut i: usize = 0;
    while i < cs.len()
        invariant
            i <= cs@.len(),
            cs@ == s@,
            out@ == upper(s@.take(i as int)),
        decreases cs.len() - i,
    {
        let c = cs[i];
        if c >= 'a' && c <= 'z' {
            push_char(&mut out, ((c as u8) - 32) as char);
        } else {
            push_char(&mut out, c);
        }
        proof {
            assert(upper(s@.take(i + 1)) =~= upper(s@.take(i as int)).push(
                upper_char(cs@[i as int]),
            ));
        }
        i = i + 1;
    }
    proof {
        assert(s@.take(s@.len() as int) =~= s@);
    }
    out
}

/// The trimmed text in ASCII lower case: the form in which names are compared.
pub open spec fn norm(s: Seq<char>) -> Seq<char> {
    lower(trim(s))
}

/// `s` trimmed and in ASCII lower case.
pub fn str_norm(s: &str) -> (r: String)
    ensures
        r@ == norm(s@),
{
    str_lower(str_trim(s))
}

/// Tells whether two texts differ at most in ASCII case.
pub fn eq_ignore_case(a: &str, b: &str) -> (r: bool)
    ensures
        r == (lower(a@) == lower(b@)),
{
    str_eq(str_lower(a).as_str(), str_lower(b).as_str())
}

/// What follows `prefix` in `s`, where `s` begins with it.
pub open spec fn after_prefix(s: Seq<char>, prefix: Seq<char>) -> Option<Seq<char>> {
    if prefix.is_prefix_of(s) {
        Some(s.skip(prefix.len() as int))
    } else {
        None
    }
}

/// `s` without `prefix`, as a slice of `s`, where `s` begins with it.
pub fn str_strip_prefix<'a>(s: &'a str, prefix: &str) -> (r: Option<&'a str>)
    ensures
        r is Some <==> prefix@.is_prefix_of(s@),
        r matches Some(rest) ==> rest@ == s@.skip(prefix@.len() as int),
        (match r { Some(rest) => Some(rest@), None => None }) == after_prefix(s@, prefix@),
{
    let cs = chars_of(s);
    let ps = chars_of(prefix);
    if ps.len() > cs.len() {
        return None;
    }
    let mut i: usize = 0;
    while i < ps.len()
        invariant
            i <= ps@.len() <= cs@.len(),
            cs@ == s@,
            ps@ == prefix@,
            forall|k: int| 0 <= k < i ==> cs@[k] == ps@[k],
        decreases ps.len() - i,
    {
        if cs[i] != ps[i] {
            proof {
                assert(s@.subrange(0, prefix@.len() as int)[i as int] != prefix@[i as int]);
            }
            return None;
        }
        i = i + 1;
    }
    proof {
        assert(s@.subrange(0, prefix@.len() as int) =~= prefix@);
        assert(s@.subrange(prefix@.len() as int, s@.len() as int) =~= s@.skip(
            prefix@.len() as int,
        ));
    }
    Some(s.substring_char(ps.len(), cs.len()))
}

/// Tells whether `s` begins with `prefix`.
pub fn str_starts_with(s: &str, prefix: &str) -> (r: bool)
    ensures
        r == prefix@.is_prefix_of(s@),
{
    str_strip_prefix(s, prefix).is_some()
}


/// `s` without `suffix`, as a slice of `s`, where `s` ends with it.
pub fn str_strip_suffix<'a>(s: &'a str, suffix: &str) -> (r: Option<&'a str>)
    ensures
        r is Some <==> suffix@.is_suffix_of(s@),
        r matches Some(rest) ==> rest@ == s@.take(s@.len() - suffix@.len()),
{
    let cs = chars_of(s);
    let ps = chars_of(suffix);
    if ps.len() > cs.len() {
        return None;
    }
    let start: usize = cs.len() - ps.len();
    let mut i: usize = 0;
    while i < ps.len()
        invariant
            i <= ps@.len() <= cs@.len(),
            start == cs@.len() - ps@.len(),
            cs.len() == cs@.len(),
            cs@ == s@,
            ps@ == suffix@,
            forall|k: int| 0 <= k < i ==> cs@[start + k] == ps@[k],
        decreases ps.len() - i,
    {
        if cs[start + i] != ps[i] {
            proof {
                assert(s@.subrange(start as int, s@.len() as int)[i as int] != suffix@[i as int]);
            }
            return None;
        }
        i = i + 1;
    }
    proof {
        assert(s@.subrange(start as int, s@.len() as int) =~= suffix@);
        assert(s@.subrange(0, start as int) =~= s@.take(start as int));
    }
    Some(s.substring_char(0, start))
}

/// Tells whether `part` stands in `s` at index `i`.
pub open spec fn occurs_at(s: Seq<char>, part: Seq<char>, i: int) -> bool {
    0 <= i && i + part.len() <= s.len() && s.subrange(i, i + part.len()) == part
}

/// Tells whether `part` stands anywhere in `s`.
pub open spec fn has_part(s: Seq<char>, part: Seq<char>) -> bool {
    exists|i: int| #[trigger] occurs_at(s, part, i)
}

/// Tells whether `part` stands in `s` at index `i`.
fn part_at(cs: &Vec<char>, ps: &Vec<char>, i: usize) -> (r: bool)
    requires
        i + ps@.len() <= cs@.len(),
    ensures
        r == occurs_at(cs@, ps@, i as int),
{
    let mut k: usize = 0;
    while k < ps.len()
        invariant
            k <= ps@.len(),
            i + ps@.len() <= cs@.len(),
            cs.len() == cs@.len(),
            forall|m: int| 0 <= m < k ==> cs@[i + m] == ps@[m],
        decreases ps.len() - k,
    {
        if cs[i + k] != ps[k] {
            proof {
                assert(cs@.subrange(i as int, i + ps@.len())[k as int] != ps@[k as int]);
            }
            return false;
        }
        k = k + 1;
    }
    proof {
        assert(cs@.subrange(i as int, i + ps@.len()) =~= ps@);
    }
    true
}

/// Tells whether `part` stands anywhere in `s`.
pub fn str_contains(s: &str, part: &str) -> (r: bool)
    ensures
        r == has_part(s@, part@),
{
    let cs = chars_of(s);
    let ps = chars_of(part);
    if ps.len() > cs.len() {
        return false;
    }
    let last: usize = cs.len() - ps.len();
    let mut i: usize = 0;
    while i <= last
        invariant
            i <= last + 1,
            last == cs@.len() - ps@.len(),
            cs@ == s@,
            ps@ == part@,
            forall|k: int| 0 <= k < i ==> !occurs_at(s@, part@, k),
        decreases last + 1 - i,
    {
        if part_at(&cs, &ps, i) {
            return true;
        }
        if i == last {
            return false;
        }
        i = i + 1;
    }
    false
}

/// Tells whether the character stands in the text.
pub fn str_has_char(s: &str, c: char) -> (r: bool)
    ensures
        r == s@.contains(c),
{
    let cs = chars_of(s);
    let mut i: usize = 0;
    while i < cs.len()
        invariant
            i <= cs@.len(),
            cs@ == s@,
            forall|k: int| 0 <= k < i ==> s@[k] != c,
        decreases cs.len() - i,
    {
        if cs[i] == c {
            return true;
        }
        i = i + 1;
    }
    false
}

/// The first `n` characters of the text, or all of it where it is shorter.
pub open spec fn first_chars(s: Seq<char>, n: nat) -> Seq<char> {
    if s.len() <= n {
        s
    } else {
        s.take(n as int)
    }
}

/// The first `n` characters of `s`, or all of it where it is shorter.
pub fn str_first_chars(s: &str, n: usize) -> (r: String)
    ensures
        r@ == first_chars(s@, n as nat),
{
    let len: usize = s.unicode_len();
    if len <= n {
        s.to_owned()
    } else {
        proof {
            assert(s@.subrange(0, n as int) =~= s@.take(n as int));
        }
        s.substring_char(0, n).to_owned()
    }
}

/// The text with every occurrence of one character replaced by a text.
pub open spec fn replace_char(s: Seq<char>, from: char, to: Seq<char>) -> Seq<char>
    decreases s.len(),
{
    if s.len() == 0 {
        s
    } else {
        replace_char(s.drop_last(), from, to) + (if s.last() == from {
            to
        } else {
            seq![s.last()]
        })
    }
}

/// `s` with every `from` replaced by `to`.
pub fn str_replace_char(s: &str, from: char, to: &str) -> (r: String)
    ensures
        r@ == replace_char(s@, from, to@),
{
    let cs = chars_of(s);
    let mut out: String = String::new();
    let mut i: usize = 0;
    while i < cs.len()
        invariant
            i <= cs@.len(),
            cs@ == s@,
            out@ == replace_char(s@.take(i as int), from, to@),
        decreases cs.len() - i,
    {
        let c = cs[i];
        proof {
            let p = s@.take(i + 1);
            assert(p.last() == c);
            assert(p.drop_last() =~= s@.take(i as int));
            assert(out@.push(c) =~= out@ + seq![c]);
        }
        if c == from {
            out.append(to);
        } else {
            push_char(&mut out, c);
        }
        i = i + 1;
    }
    proof {
        assert(s@.take(s@.len() as int) =~= s@);
    }
    out
}


/// A line without its carriage return.
pub open spec fn strip_cr(line: Seq<char>) -> Seq<char> {
    if line.len() > 0 && line.last() == '\r' {
        line.drop_last()
    } else {
        line
    }
}

/// The lines of `rest`, where `cur` has been read of the first of them.
pub open spec fn lines_after(cur: Seq<char>, rest: Seq<char>) -> Seq<Seq<char>>
    decreases rest.len(),
{
    if rest.len() == 0 {
        if cur.len() == 0 {
            Seq::empty()
        } else {
            seq![cur]
        }
    } else if rest[0] == '\n' {
        seq![strip_cr(cur)] + lines_after(Seq::empty(), rest.drop_first())
    } else {
        lines_after(cur.push(rest[0]), rest.drop_first())
    }
}

/// The lines of a text: each ends at a line feed, whose preceding carriage return goes with it; a
/// last line may lack the line feed, and an empty remainder is no line.
pub open spec fn lines(s: Seq<char>) -> Seq<Seq<char>> {
    lines_after(Seq::empty(), s)
}

/// The lines of `s`.
pub fn str_lines(s: &str) -> (r: Vec<String>)
    ensures
        views(r@) == lines(s@),
{
    let cs = chars_of(s);
    let mut out: Vec<String> = Vec::new();
    let mut cur: String = String::new();
    let mut i: usize = 0;
    proof {
        assert(s@.skip(0) =~= s@);
        assert(views(out@) + lines_after(cur@, s@) =~= lines(s@));
    }
    while i < cs.len()
        invariant
            i <= cs@.len(),
            cs@ == s@,
            views(out@) + lines_after(cur@, s@.skip(i as int)) == lines(s@),
        decreases cs.len() - i,
    {
        let c = cs[i];
        let ghost rest = s@.skip(i as int);
        let ghost before = views(out@);
        proof {
            assert(rest[0] == c);
            assert(rest.drop_first() =~= s@.skip(i + 1));
        }
        if c == '\n' {
            let line = match str_strip_suffix(cur.as_str(), "\r") {
                Some(short) => short.to_owned(),
                None => cur.clone(),
            };
            proof {
                reveal_strlit("\r");
                assert("\r"@ =~= seq!['\r']);
                if cur@.len() > 0 {
                    assert(cur@.subrange(cur@.len() - 1, cur@.len() as int) =~= seq![cur@.last()]);
                    assert(seq![cur@.last()] == seq!['\r'] ==> seq![cur@.last()][0] == '\r');
                }
                assert(line@ =~= strip_cr(cur@));
            }
            out.push(line);
            cur = String::new();
            proof {
                assert(views(out@) =~= before.push(line@));
                let tail = lines_after(Seq::empty(), rest.drop_first());
                assert(before.push(line@) + tail =~= before + (seq![line@] + tail));
            }
        } else {
            push_char(&mut cur, c);
        }
        i = i + 1;
    }
    let ghost before = views(out@);
    if !cur.as_str().is_empty() {
        out.push(cur);
        proof {
            assert(views(out@) =~= before + seq![cur@]);
        }
    } else {
        proof {
            assert(before + Seq::<Seq<char>>::empty() =~= before);
        }
    }
    out
}

/// The parts of `rest` between separators, where `cur` has been read of the first of them.
pub open spec fn split_after(cur: Seq<char>, rest: Seq<char>, sep: char) -> Seq<Seq<char>>
    decreases rest.len(),
{
    if rest.len() == 0 {
        seq![cur]
    } else if rest[0] == sep {
        seq![cur] + split_after(Seq::empty(), rest.drop_first(), sep)
    } else {
        split_after(cur.push(rest[0]), rest.drop_first(), sep)
    }
}

/// The parts of a text between separators; there is always at least one.
pub open spec fn split(s: Seq<char>, sep: char) -> Seq<Seq<char>> {
    split_after(Seq::empty(), s, sep)
}

/// The parts of `s` between separators.
pub fn str_split(s: &str, sep: char) -> (r: Vec<String>)
    ensures
        views(r@) == split(s@, sep),
{
    let cs = chars_of(s);
    let mut out: Vec<String> = Vec::new();
    let mut cur: String = String::new();
    let mut i: usize = 0;
    proof {
        assert(s@.skip(0) =~= s@);
        assert(views(out@) + split_after(cur@, s@, sep) =~= split(s@, sep));
    }
    while i < cs.len()
        invariant
            i <= cs@.len(),
            cs@ == s@,
            views(out@) + split_after(cur@, s@.skip(i as int), sep) == split(s@, sep),
        decreases cs.len() - i,
    {
        let c = cs[i];
        let ghost rest = s@.skip(i as int);
        let ghost before = views(out@);
        let ghost part = cur@;
        proof {
            assert(rest[0] == c);
            assert(rest.drop_first() =~= s@.skip(i + 1));
        }
        if c == sep {
            out.push(cur);
            cur = String::new();
            proof {
                assert(views(out@) =~= before.push(part));
                let tail = split_after(Seq::empty(), rest.drop_first(), sep);
                assert(before.push(part) + tail =~= before + (seq![part] + tail));
            }
        } else {
            push_char(&mut cur, c);
        }
        i = i + 1;
    }
    let ghost before = views(out@);
    let ghost part = cur@;
    out.push(cur);
    proof {
        assert(views(out@) =~= before + seq![part]);
    }
    out
}

/// The words of `rest`, where `cur` has been read of the first of them.
pub open spec fn words_after(cur: Seq<char>, rest: Seq<char>) -> Seq<Seq<char>>
    decreases rest.len(),
{
    if rest.len() == 0 {
        if cur.len() == 0 {
            Seq::empty()
        } else {
            seq![cur]
        }
    } else if is_space(rest[0]) {
        if cur.len() == 0 {
            words_after(cur, rest.drop_first())
        } else {
            seq![cur] + words_after(Seq::empty(), rest.drop_first())
        }
    } else {
        words_after(cur.push(rest[0]), rest.drop_first())
    }
}

/// The words of a text: its maximal runs without white space.
pub open spec fn words(s: Seq<char>) -> Seq<Seq<char>> {
    words_after(Seq::empty(), s)
}

/// The words of `s`.
pub fn str_words(s: &str) -> (r: Vec<String>)
    ensures
        views(r@) == words(s@),
{
    let cs = chars_of(s);
    let mut out: Vec<String> = Vec::new();
    let mut cur: String = String::new();
    let mut i: usize = 0;
    proof {
        assert(s@.skip(0) =~= s@);
        assert(views(out@) + words_after(cur@, s@) =~= words(s@));
    }
    while i < cs.len()
        invariant
            i <= cs@.len(),
            cs@ == s@,
            views(out@) + words_after(cur@, s@.skip(i as int)) == words(s@),
        decreases cs.len() - i,
    {
        let c = cs[i];
        let ghost rest = s@.skip(i as int);
        let ghost before = views(out@);
        let ghost part = cur@;
        proof {
            assert(rest[0] == c);
            assert(rest.drop_first() =~= s@.skip(i + 1));
        }
        if char_is_space(c) {
            if !cur.as_str().is_empty() {
                out.push(cur);
                cur = String::new();
                proof {
                    assert(views(out@) =~= before.push(part));
                    let tail = words_after(Seq::empty(), rest.drop_first());
                    assert(before.push(part) + tail =~= before + (seq![part] + tail));
                }
            }
        } else {
            push_char(&mut cur, c);
        }
        i = i + 1;
    }
    let ghost before = views(out@);
    let ghost part = cur@;
    if !cur.as_str().is_empty() {
        out.push(cur);
        proof {
            assert(views(out@) =~= before + seq![part]);
        }
    } else {
        proof {
            assert(before + Seq::<Seq<char>>::empty() =~= before);
        }
    }
    out
}

/// The parts with the separator between each two of them.
pub open spec fn join(parts: Seq<Seq<char>>, sep: Seq<char>) -> Seq<char>
    decreases parts.len(),
{
    if parts.len() == 0 {
        Seq::empty()
    } else if parts.len() == 1 {
        parts[0]
    } else {
        join(parts.drop_last(), sep) + sep + parts.last()
    }
}

/// The texts of `parts` with `sep` between each two of them.
pub fn str_join(parts: &Vec<String>, sep: &str) -> (r: String)
    ensures
        r@ == join(views(parts@), sep@),
{
    let mut out: String = String::new();
    let mut i: usize = 0;
    while i < parts.len()
        invariant
            i <= parts@.len(),
            out@ == join(views(parts@).take(i as int), sep@),
        decreases parts.len() - i,
    {
        proof {
            let p = views(parts@).take(i + 1);
            assert(p.last() == parts@[i as int]@);
            assert(p.drop_last() =~= views(parts@).take(i as int));
            assert(Seq::<char>::empty() + parts@[i as int]@ =~= parts@[i as int]@);
        }
        if i > 0 {
            out.append(sep);
        }
        out.append(parts[i].as_str());
        i = i + 1;
    }
    proof {
        assert(views(parts@).take(parts@.len() as int) =~= views(parts@));
    }
    out
}


/// The decimal digit of a number below ten.
pub open spec fn digit(n: nat) -> char {
    (('0' as u8) + n) as char
}

/// The decimal notation of a number.
pub open spec fn decimal(n: nat) -> Seq<char>
    decreases n,
{
    if n < 10 {
        seq![digit(n)]
    } else {
        decimal(n / 10).push(digit(n % 10))
    }
}

/// The decimal notation of a number with a sign where it is negative.
pub open spec fn decimal_int(n: int) -> Seq<char> {
    if n < 0 {
        "-"@ + decimal((-n) as nat)
    } else {
        decimal(n as nat)
    }
}

/// The decimal notation of `n`.
pub fn u64_text(n: u64) -> (r: String)
    ensures
        r@ == decimal(n as nat),
    decreases n,
{
    if n < 10 {
        let mut out: String = String::new();
        push_char(&mut out, (48 + (n as u8)) as char);
        proof {
            assert(out@ =~= decimal(n as nat));
        }
        out
    } else {
        let mut out = u64_text(n / 10);
        push_char(&mut out, (48 + ((n % 10) as u8)) as char);
        out
    }
}

/// The decimal notation of `n`, with a sign where it is negative.
pub fn i64_text(n: i64) -> (r: String)
    ensures
        r@ == decimal_int(n as int),
{
    if n < 0 {
        let m: u64 = (-(n as i128)) as u64;
        cat2("-", u64_text(m).as_str())
    } else {
        u64_text(n as u64)
    }
}

/// Tells whether a character is a decimal digit.
pub open spec fn is_digit(c: char) -> bool {
    '0' <= c <= '9'
}

/// The number that a run of decimal digits denotes.
pub open spec fn digits_value(s: Seq<char>) -> nat
    decreases s.len(),
{
    if s.len() == 0 {
        0
    } else {
        digits_value(s.drop_last()) * 10 + ((s.last() as nat) - ('0' as nat)) as nat
    }
}

/// Tells whether a text is a nonempty run of decimal digits.
pub open spec fn all_digits(s: Seq<char>) -> bool {
    s.len() > 0 && forall|i: int| 0 <= i < s.len() ==> is_digit(#[trigger] s[i])
}

/// The digits of an unsigned number: what follows an optional plus sign.
pub open spec fn unsigned_digits(s: Seq<char>) -> Seq<char> {
    if s.len() > 0 && s[0] == '+' {
        s.drop_first()
    } else {
        s
    }
}

/// The number up to `max` that a text denotes: an optional plus sign and decimal digits.
pub open spec fn unsigned_value(s: Seq<char>, max: nat) -> Option<nat> {
    let d = unsigned_digits(s);
    if all_digits(d) && digits_value(d) <= max {
        Some(digits_value(d))
    } else {
        None
    }
}

/// Leading digits denote no more than the whole run.
proof fn lemma_digits_value_grows(s: Seq<char>, i: int)
    requires
        0 <= i <= s.len(),
        forall|k: int| 0 <= k < s.len() ==> is_digit(#[trigger] s[k]),
    ensures
        digits_value(s.take(i)) <= digits_value(s),
    decreases s.len() - i,
{
    if i == s.len() {
        assert(s.take(i) =~= s);
    } else {
        lemma_digits_value_grows(s, i + 1);
        assert(s.take(i + 1).drop_last() =~= s.take(i));
        assert(s.take(i + 1).last() == s[i]);
    }
}

/// The number up to `max` that `s` denotes.
pub fn parse_unsigned(s: &str, max: u64) -> (r: Option<u64>)
    ensures
        (match r { Some(n) => Some(n as nat), None => None }) == unsigned_value(s@, max as nat),
{
    let cs = chars_of(s);
    let start: usize = if cs.len() > 0 && cs[0] == '+' { 1 } else { 0 };
    let ghost d = unsigned_digits(s@);
    proof {
        assert(d =~= s@.skip(start as int));
    }
    if start == cs.len() {
        return None;
    }
    let mut value: u64 = 0;
    let mut i: usize = start;
    proof {
        assert(d.take(0) =~= Seq::<char>::empty());
    }
    while i < cs.len()
        invariant
            start <= i <= cs@.len(),
            cs@ == s@,
            d == s@.skip(start as int),
            d == unsigned_digits(s@),
            value == digits_value(d.take(i - start)),
            value <= max,
            forall|k: int| 0 <= k < i - start ==> is_digit(#[trigger] d[k]),
        decreases cs.len() - i,
    {
        let c = cs[i];
        let ghost k = i - start;
        proof {
            assert(d[k] == c);
            assert(d.take(k + 1).drop_last() =~= d.take(k));
            assert(d.take(k + 1).last() == c);
        }
        if !(c >= '0' && c <= '9') {
            return None;
        }
        let add: u64 = (c as u64) - 48;
        let wide: u128 = (value as u128) * 10 + (add as u128);
        if wide > max as u128 {
            proof {
                if all_digits(d) {
                    lemma_digits_value_grows(d, k + 1);
                }
            }
            return None;
        }
        value = wide as u64;
        i = i + 1;
    }
    proof {
        assert(d.take(d.len() as int) =~= d);
    }
    Some(value)
}

/// The number of bytes that a character takes in UTF-8.
pub open spec fn char_bytes(c: char) -> nat {
    if (c as u32) < 0x80 {
        1
    } else if (c as u32) < 0x800 {
        2
    } else if (c as u32) < 0x10000 {
        3
    } else {
        4
    }
}

/// The number of bytes that a text takes in UTF-8.
pub open spec fn byte_len(s: Seq<char>) -> nat
    decreases s.len(),
{
    if s.len() == 0 {
        0
    } else {
        byte_len(s.drop_last()) + char_bytes(s.last())
    }
}

/// The number of bytes that `c` takes in UTF-8.
pub fn char_byte_count(c: char) -> (r: usize)
    ensures
        r == char_bytes(c),
{
    let n: u32 = c as u32;
    if n < 0x80 {
        1
    } else if n < 0x800 {
        2
    } else if n < 0x10000 {
        3
    } else {
        4
    }
}

/// A prefix takes no more bytes than the whole text.
pub proof fn lemma_byte_len_grows(s: Seq<char>, i: int)
    requires
        0 <= i <= s.len(),
    ensures
        byte_len(s.take(i)) <= byte_len(s),
        i < s.len() ==> byte_len(s.take(i + 1)) == byte_len(s.take(i)) + char_bytes(s[i]),
    decreases s.len() - i,
{
    if i == s.len() {
        assert(s.take(i) =~= s);
    } else {
        lemma_byte_len_grows(s, i + 1);
        assert(s.take(i + 1).drop_last() =~= s.take(i));
        assert(s.take(i + 1).last() == s[i]);
    }
}

/// The number of bytes that `s` takes in UTF-8, or `cap` where it takes more.
pub fn byte_len_capped(s: &str, cap: usize) -> (r: usize)
    requires
        cap <= 1_000_000,
    ensures
        r == (if byte_len(s@) <= cap { byte_len(s@) } else { cap as nat }),
{
    let cs = chars_of(s);
    let mut total: usize = 0;
    let mut i: usize = 0;
    while i < cs.len()
        invariant
            i <= cs@.len(),
            cs@ == s@,
            total == byte_len(s@.take(i as int)),
            total <= cap <= 1_000_000,
        decreases cs.len() - i,
    {
        proof {
            lemma_byte_len_grows(s@, i as int);
            lemma_byte_len_grows(s@, i + 1);
        }
        total = total + char_byte_count(cs[i]);
        if total > cap {
            return cap;
        }
        i = i + 1;
    }
    proof {
        assert(s@.take(s@.len() as int) =~= s@);
    }
    total
}


/// The text without leading characters of the given ones.
pub open spec fn trim_front_of(s: Seq<char>, set: Seq<char>) -> Seq<char>
    decreases s.len(),
{
    if s.len() > 0 && set.contains(s[0]) {
        trim_front_of(s.drop_first(), set)
    } else {
        s
    }
}

/// The text without trailing characters of the given ones.
pub open spec fn trim_back_of(s: Seq<char>, set: Seq<char>) -> Seq<char>
    decreases s.len(),
{
    if s.len() > 0 && set.contains(s.last()) {
        trim_back_of(s.drop_last(), set)
    } else {
        s
    }
}

/// Tells whether the character is one of the given text.
fn one_of(c: char, set: &str) -> (r: bool)
    ensures
        r == set@.contains(c),
{
    str_has_char(set, c)
}

/// `s` without leading characters of `set`.
pub fn str_trim_front_of<'a>(s: &'a str, set: &str) -> (r: &'a str)
    ensures
        r@ == trim_front_of(s@, set@),
{
    let cs = chars_of(s);
    let mut i: usize = 0;
    proof {
        assert(s@.skip(0) =~= s@);
    }
    while i < cs.len() && one_of(cs[i], set)
        invariant
            i <= cs@.len(),
            cs@ == s@,
            trim_front_of(s@, set@) == trim_front_of(s@.skip(i as int), set@),
        decreases cs.len() - i,
    {
        proof {
            assert(s@.skip(i as int)[0] == cs@[i as int]);
            assert(s@.skip(i as int).drop_first() =~= s@.skip(i + 1));
        }
        i = i + 1;
    }
    proof {
        if i < cs@.len() {
            assert(s@.skip(i as int)[0] == cs@[i as int]);
        }
        assert(s@.subrange(i as int, s@.len() as int) =~= s@.skip(i as int));
    }
    s.substring_char(i, cs.len())
}

/// `s` without trailing characters of `set`.
pub fn str_trim_back_of<'a>(s: &'a str, set: &str) -> (r: &'a str)
    ensures
        r@ == trim_back_of(s@, set@),
{
    let cs = chars_of(s);
    let mut j: usize = cs.len();
    proof {
        assert(s@.take(j as int) =~= s@);
    }
    while j > 0 && one_of(cs[j - 1], set)
        invariant
            j <= cs@.len(),
            cs@ == s@,
            trim_back_of(s@, set@) == trim_back_of(s@.take(j as int), set@),
        decreases j,
    {
        proof {
            assert(s@.take(j as int).last() == cs@[j - 1]);
            assert(s@.take(j as int).drop_last() =~= s@.take(j - 1));
        }
        j = j - 1;
    }
    proof {
        if j > 0 {
            assert(s@.take(j as int).last() == cs@[j - 1]);
        }
        assert(s@.subrange(0, j as int) =~= s@.take(j as int));
    }
    s.substring_char(0, j)
}

/// The index of the first key that is the given one, the number of keys where there is none.
pub open spec fn first_at(keys: Seq<Seq<char>>, key: Seq<char>) -> int
    decreases keys.len(),
{
    if keys.len() == 0 {
        0
    } else if keys[0] == key {
        0
    } else {
        1 + first_at(keys.drop_first(), key)
    }
}

/// The key is among the keys.
pub open spec fn has_key(keys: Seq<Seq<char>>, key: Seq<char>) -> bool {
    first_at(keys, key) < keys.len()
}

/// What `first_at` gives is the least index of the key.
pub proof fn lemma_first_at(keys: Seq<Seq<char>>, key: Seq<char>)
    ensures
        0 <= first_at(keys, key) <= keys.len(),
        first_at(keys, key) < keys.len() ==> keys[first_at(keys, key)] == key,
        forall|k: int| 0 <= k < first_at(keys, key) ==> #[trigger] keys[k] != key,
        has_key(keys, key) <==> keys.contains(key),
    decreases keys.len(),
{
    if keys.len() > 0 && keys[0] != key {
        let rest = keys.drop_first();
        lemma_first_at(rest, key);
        assert forall|k: int| 0 <= k < first_at(keys, key) implies #[trigger] keys[k] != key by {
            if k > 0 {
                assert(rest[k - 1] == keys[k]);
            }
        }
        if keys.contains(key) {
            let k = choose|k: int| 0 <= k < keys.len() && keys[k] == key;
            assert(rest[k - 1] == key);
        }
    }
}

/// An index of the key before which it does not occur is the one that `first_at` gives.
pub proof fn lemma_first_at_is(keys: Seq<Seq<char>>, key: Seq<char>, i: int)
    requires
        0 <= i <= keys.len(),
        i < keys.len() ==> keys[i] == key,
        forall|k: int| 0 <= k < i ==> #[trigger] keys[k] != key,
    ensures
        first_at(keys, key) == i,
{
    lemma_first_at(keys, key);
    let f = first_at(keys, key);
    if f < i {
        assert(keys[f] != key);
    }
}

/// The views of borrowed texts.
pub open spec fn str_views(v: Seq<&str>) -> Seq<Seq<char>> {
    v.map_values(|s: &str| s@)
}

/// Copies of texts.
pub fn texts(items: &[&str]) -> (r: Vec<String>)
    ensures
        views(r@) == str_views(items@),
{
    let mut out: Vec<String> = Vec::new();
    let mut i: usize = 0;
    while i < items.len()
        invariant
            i <= items@.len(),
            views(out@) == str_views(items@.take(i as int)),
        decreases items.len() - i,
    {
        let ghost before = out@;
        out.push(items[i].to_owned());
        proof {
            assert(views(out@) =~= views(before).push(items@[i as int]@));
            assert(str_views(items@.take(i + 1)) =~= str_views(items@.take(i as int)).push(
                items@[i as int]@,
            ));
        }
        i = i + 1;
    }
    proof {
        assert(items@.take(i as int) =~= items@);
    }
    out
}

/// A list with one more text.
pub fn add_text(list: &mut Vec<String>, item: String)
    ensures
        views(final(list)@) == views(old(list)@).push(item@),
{
    let ghost before = list@;
    list.push(item);
    proof {
        assert(views(list@) =~= views(before).push(item@));
    }
}

/// The decimal notation of a number is a run of digits that denotes it.
pub proof fn law_decimal_reads_back(n: nat)
    ensures
        all_digits(decimal(n)),
        digits_value(decimal(n)) == n,
    decreases n,
{
    if n < 10 {
        let d = decimal(n);
        assert(d.drop_last() =~= Seq::<char>::empty());
        assert(digits_value(Seq::<char>::empty()) == 0);
    } else {
        law_decimal_reads_back(n / 10);
        let d = decimal(n);
        assert(d.drop_last() =~= decimal(n / 10));
    }
}

/// No two numbers have one decimal notation.
pub proof fn law_decimal_is_one_to_one(a: int, b: int)
    requires
        decimal_int(a) == decimal_int(b),
    ensures
        a == b,
{
    reveal_strlit("-");
    let m = if a < 0 { -a } else { a };
    let n = if b < 0 { -b } else { b };
    law_decimal_reads_back(m as nat);
    law_decimal_reads_back(n as nat);
    if a < 0 && b < 0 {
        assert(decimal_int(a).skip(1) =~= decimal(m as nat));
        assert(decimal_int(b).skip(1) =~= decimal(n as nat));
    } else if a < 0 {
        assert(decimal_int(a)[0] == '-');
        assert(is_digit(decimal(n as nat)[0]));
    } else if b < 0 {
        assert(decimal_int(b)[0] == '-');
        assert(is_digit(decimal(m as nat)[0]));
    }
}

/// A text that neither begins nor ends with white space is trimmed to itself.
pub proof fn lemma_trim_keeps(s: Seq<char>)
    requires
        s.len() > 0,
        !is_space(s[0]),
        !is_space(s.last()),
    ensures
        trim(s) == s,
{
    assert(trim_start(s) == s);
}

/// A text without the separator is one part.
pub proof fn lemma_split_none(cur: Seq<char>, rest: Seq<char>, sep: char)
    requires
        forall|i: int| 0 <= i < rest.len() ==> #[trigger] rest[i] != sep,
    ensures
        split_after(cur, rest, sep) == seq![cur + rest],
    decreases rest.len(),
{
    if rest.len() == 0 {
        assert(cur + rest =~= cur);
    } else {
        lemma_split_none(cur.push(rest[0]), rest.drop_first(), sep);
        assert(cur.push(rest[0]) + rest.drop_first() =~= cur + rest);
    }
}

/// A text with the separator once is two parts.
pub proof fn lemma_split_pair(cur: Seq<char>, a: Seq<char>, b: Seq<char>, sep: char)
    requires
        forall|i: int| 0 <= i < a.len() ==> #[trigger] a[i] != sep,
        forall|i: int| 0 <= i < b.len() ==> #[trigger] b[i] != sep,
    ensures
        split_after(cur, a + seq![sep] + b, sep) == seq![cur + a, b],
    decreases a.len(),
{
    let rest = a + seq![sep] + b;
    if a.len() == 0 {
        assert(rest[0] == sep);
        assert(rest.drop_first() =~= b);
        lemma_split_none(Seq::empty(), b, sep);
        assert(Seq::<char>::empty() + b =~= b);
        assert(cur + a =~= cur);
        assert(split_after(cur, rest, sep) =~= seq![cur + a, b]);
    } else {
        assert(rest[0] == a[0]);
        assert(rest.drop_first() =~= a.drop_first() + seq![sep] + b);
        lemma_split_pair(cur.push(a[0]), a.drop_first(), b, sep);
        assert(cur.push(a[0]) + a.drop_first() =~= cur + a);
    }
}

/// How many leading characters of a text fit in `n` bytes of UTF-8.
pub open spec fn fit(s: Seq<char>, n: nat) -> nat
    decreases s.len(),
{
    if s.len() == 0 || char_bytes(s[0]) > n {
        0
    } else {
        1 + fit(s.drop_first(), (n - char_bytes(s[0])) as nat)
    }
}

/// The bytes of a text are those of its first character and those of the rest.
pub proof fn lemma_byte_len_first(s: Seq<char>)
    requires
        s.len() > 0,
    ensures
        byte_len(s) == char_bytes(s[0]) + byte_len(s.drop_first()),
    decreases s.len(),
{
    if s.len() == 1 {
        assert(s.drop_last() =~= Seq::<char>::empty());
        assert(s.drop_first() =~= Seq::<char>::empty());
    } else {
        lemma_byte_len_first(s.drop_last());
        assert(s.drop_last().drop_first() =~= s.drop_first().drop_last());
    }
}

/// What fits takes no more than the bytes that there are, and one character more would.
pub proof fn law_fit_is_the_most(s: Seq<char>, n: nat)
    ensures
        fit(s, n) <= s.len(),
        byte_len(s.take(fit(s, n) as int)) <= n,
        fit(s, n) < s.len() ==> byte_len(s.take(fit(s, n) as int + 1)) > n,
        byte_len(s) <= n <==> fit(s, n) == s.len(),
    decreases s.len(),
{
    if s.len() == 0 {
        assert(s.take(0) =~= s);
    } else {
        lemma_byte_len_first(s);
        if char_bytes(s[0]) > n {
            assert(s.take(0) =~= Seq::<char>::empty());
            assert(s.take(1).drop_first() =~= Seq::<char>::empty());
            lemma_byte_len_first(s.take(1));
        } else {
            let m = (n - char_bytes(s[0])) as nat;
            let t = s.drop_first();
            law_fit_is_the_most(t, m);
            let k = fit(t, m) as int;
            let a = s.take(k + 1);
            assert(a.drop_first() =~= t.take(k));
            lemma_byte_len_first(a);
            if k < t.len() {
                let b = s.take(k + 2);
                assert(b.drop_first() =~= t.take(k + 1));
                lemma_byte_len_first(b);
            }
        }
    }
}

/// How many leading characters fit in `n` bytes, and how many bytes those take.
pub fn fitting(cs: &Vec<char>, n: usize) -> (r: (usize, usize))
    ensures
        r.0 == fit(cs@, n as nat),
        r.0 <= cs@.len(),
        r.1 == byte_len(cs@.take(r.0 as int)),
        r.1 <= n,
{
    let mut i: usize = 0;
    let mut left: usize = n;
    let ghost goal = fit(cs@, n as nat);
    proof {
        assert(cs@.skip(0) =~= cs@);
        assert(cs@.take(0) =~= Seq::<char>::empty());
    }
    while i < cs.len()
        invariant
            i <= cs@.len(),
            left <= n,
            goal == i + fit(cs@.skip(i as int), left as nat),
            goal == fit(cs@, n as nat),
            n - left == byte_len(cs@.take(i as int)),
        decreases cs.len() - i,
    {
        let b: usize = char_byte_count(cs[i]);
        proof {
            assert(cs@.skip(i as int)[0] == cs@[i as int]);
            assert(cs@.skip(i as int).drop_first() =~= cs@.skip(i + 1));
            lemma_byte_len_grows(cs@, i as int);
        }
        if b > left {
            return (i, n - left);
        }
        left = left - b;
        i = i + 1;
    }
    (i, n - left)
}

/// A text has as many bytes backwards as forwards.
pub proof fn lemma_byte_len_reverse(s: Seq<char>)
    ensures
        byte_len(s.reverse()) == byte_len(s),
    decreases s.len(),
{
    if s.len() == 0 {
        assert(s.reverse() =~= s);
    } else {
        let r = s.reverse();
        lemma_byte_len_reverse(s.drop_last());
        lemma_byte_len_first(r);
        assert(r[0] == s.last());
        assert(r.drop_first() =~= s.drop_last().reverse());
    }
}

/// How many trailing characters of a text fit in `n` bytes of UTF-8.
pub open spec fn fit_back(s: Seq<char>, n: nat) -> nat {
    fit(s.reverse(), n)
}

/// How many trailing characters fit in `n` bytes, and how many bytes those take.
pub fn fitting_back(cs: &Vec<char>, n: usize) -> (r: (usize, usize))
    ensures
        r.0 == fit_back(cs@, n as nat),
        r.0 <= cs@.len(),
        r.1 == byte_len(cs@.skip(cs@.len() - r.0)),
        r.1 <= n,
        byte_len(cs@) <= n <==> r.0 == cs@.len(),
{
    let mut rev: Vec<char> = Vec::new();
    let mut i: usize = cs.len();
    while i > 0
        invariant
            i <= cs@.len(),
            rev@.len() == cs@.len() - i,
            forall|k: int| 0 <= k < rev@.len() ==> #[trigger] rev@[k] == cs@[cs@.len() - 1 - k],
        decreases i,
    {
        i = i - 1;
        rev.push(cs[i]);
    }
    proof {
        assert(rev@ =~= cs@.reverse());
    }
    let r = fitting(&rev, n);
    proof {
        let tail = cs@.skip(cs@.len() - r.0);
        assert(tail.reverse() =~= rev@.take(r.0 as int));
        lemma_byte_len_reverse(tail);
        lemma_byte_len_reverse(cs@);
        law_fit_is_the_most(rev@, n as nat);
    }
    r
}

/// The index from `i` on at which a character stands, the length of the text where it does not.
pub open spec fn char_from(s: Seq<char>, c: char, i: int) -> int
    decreases s.len() - i,
{
    if i >= s.len() {
        s.len() as int
    } else if s[i] == c {
        i
    } else {
        char_from(s, c, i + 1)
    }
}

/// What stands before and behind the first separator.
pub open spec fn split_once(s: Seq<char>, sep: char) -> Option<(Seq<char>, Seq<char>)> {
    let k = char_from(s, sep, 0);
    if 0 <= k < s.len() {
        Some((s.take(k), s.skip(k + 1)))
    } else {
        None
    }
}

/// What stands before and behind the first separator.
pub fn str_split_once<'a>(s: &'a str, sep: char) -> (r: Option<(&'a str, &'a str)>)
    ensures
        (match r { Some(p) => Some((p.0@, p.1@)), None => None }) == split_once(s@, sep),
{
    let cs = chars_of(s);
    let mut i: usize = 0;
    while i < cs.len()
        invariant
            i <= cs@.len(),
            cs@ == s@,
            char_from(s@, sep, 0) == char_from(s@, sep, i as int),
        decreases cs.len() - i,
    {
        if cs[i] == sep {
            let a = s.substring_char(0, i);
            let b = s.substring_char(i + 1, cs.len());
            proof {
                assert(a@ =~= s@.take(i as int));
                assert(b@ =~= s@.skip(i + 1));
            }
            return Some((a, b));
        }
        i = i + 1;
    }
    None
}

/// The text with every occurrence of a part replaced by another text, from the front; the part is not
/// empty.
pub open spec fn replaced(s: Seq<char>, part: Seq<char>, with: Seq<char>) -> Seq<char>
    decreases s.len(),
{
    if part.len() == 0 || s.len() < part.len() {
        s
    } else if part.is_prefix_of(s) {
        with + replaced(s.skip(part.len() as int), part, with)
    } else {
        seq![s[0]] + replaced(s.drop_first(), part, with)
    }
}

/// `s` with every occurrence of `part` replaced by `with`.
pub fn str_replaced(s: &str, part: &str, with: &str) -> (r: String)
    requires
        part@.len() > 0,
    ensures
        r@ == replaced(s@, part@, with@),
{
    let n: usize = s.unicode_len();
    let m: usize = part.unicode_len();
    let mut out = String::new();
    let mut i: usize = 0;
    proof {
        assert(s@.skip(0) =~= s@);
        assert(out@ =~= Seq::<char>::empty());
        assert(out@ + replaced(s@.skip(0), part@, with@) =~= replaced(s@, part@, with@));
    }
    while n - i >= m
        invariant
            i <= n,
            n == s@.len(),
            m == part@.len(),
            m > 0,
            out@ + replaced(s@.skip(i as int), part@, with@) == replaced(s@, part@, with@),
        decreases n - i,
    {
        let rest = s.substring_char(i, n);
        let ghost before = out@;
        proof {
            assert(rest@ =~= s@.skip(i as int));
        }
        if str_starts_with(rest, part) {
            out.append(with);
            proof {
                assert(s@.skip(i as int).skip(m as int) =~= s@.skip(i + m));
                assert(before + (with@ + replaced(s@.skip(i + m), part@, with@)) =~= before + with@
                    + replaced(s@.skip(i + m), part@, with@));
            }
            i = i + m;
        } else {
            let c = s.get_char(i);
            push_char(&mut out, c);
            proof {
                assert(s@.skip(i as int).drop_first() =~= s@.skip(i + 1));
                assert(before + (seq![c] + replaced(s@.skip(i + 1), part@, with@)) =~= before.push(
                    c,
                ) + replaced(s@.skip(i + 1), part@, with@));
            }
            i = i + 1;
        }
    }
    let tail = s.substring_char(i, n);
    proof {
        assert(tail@ =~= s@.skip(i as int));
    }
    out.append(tail);
    out
}

/// How many characters are trimmed off the front: white space all of them, and none follows them.
proof fn lemma_trim_start(s: Seq<char>) -> (a: int)
    ensures
        0 <= a <= s.len(),
        trim_start(s) == s.skip(a),
        forall|i: int| 0 <= i < a ==> is_space(#[trigger] s[i]),
        a < s.len() ==> !is_space(s[a]),
    decreases s.len(),
{
    if s.len() > 0 && is_space(s[0]) {
        let t = s.drop_first();
        let b = lemma_trim_start(t);
        assert(t.skip(b) =~= s.skip(b + 1));
        assert forall|i: int| 0 <= i < b + 1 implies is_space(#[trigger] s[i]) by {
            if i > 0 {
                assert(t[i - 1] == s[i]);
            }
        }
        if b < t.len() {
            assert(t[b] == s[b + 1]);
        }
        b + 1
    } else {
        assert(s.skip(0) =~= s);
        0
    }
}

/// How many characters are left when the end is trimmed: white space all that follow, and none the last.
proof fn lemma_trim_end(s: Seq<char>) -> (b: int)
    ensures
        0 <= b <= s.len(),
        trim_end(s) == s.take(b),
        forall|i: int| b <= i < s.len() ==> is_space(#[trigger] s[i]),
        b > 0 ==> !is_space(s[b - 1]),
    decreases s.len(),
{
    if s.len() > 0 && is_space(s.last()) {
        let t = s.drop_last();
        let b = lemma_trim_end(t);
        assert(t.take(b) =~= s.take(b));
        assert forall|i: int| b <= i < s.len() implies is_space(#[trigger] s[i]) by {
            if i < t.len() {
                assert(t[i] == s[i]);
            }
        }
        if b > 0 {
            assert(t[b - 1] == s[b - 1]);
        }
        b
    } else {
        assert(s.take(s.len() as int) =~= s);
        s.len() as int
    }
}

/// Only white space is trimmed off a text, from either end and all of it.
pub proof fn law_trimming_takes_white_space_off(s: Seq<char>)
    ensures
        exists|a: int, b: int|
            0 <= a <= b <= s.len() && trim(s) == #[trigger] s.subrange(a, b) && (forall|i: int|
                0 <= i < a || b <= i < s.len() ==> is_space(#[trigger] s[i])),
        trim(s).len() > 0 ==> !is_space(trim(s)[0]) && !is_space(trim(s).last()),
        trim(s).len() == 0 <==> forall|i: int| 0 <= i < s.len() ==> is_space(#[trigger] s[i]),
        trim(trim(s)) == trim(s),
{
    let a = lemma_trim_start(s);
    let t = s.skip(a);
    let n = lemma_trim_end(t);
    let b = a + n;
    assert(t.take(n) =~= s.subrange(a, b));
    assert forall|i: int| 0 <= i < a || b <= i < s.len() implies is_space(#[trigger] s[i]) by {
        if i >= a {
            assert(t[i - a] == s[i]);
        }
    }
    assert(trim(s) == s.subrange(a, b));
    if n > 0 {
        assert(trim(s)[0] == s[a]);
        assert(trim(s).last() == t[n - 1]);
        lemma_trim_keeps(trim(s));
    } else {
        assert(trim(s) =~= Seq::empty());
        assert(trim_start(trim(s)) == trim(s));
    }
    if n > 0 && forall|i: int| 0 <= i < s.len() ==> is_space(#[trigger] s[i]) {
        assert(is_space(s[a]));
    }
}

/// Of the ASCII characters, the blank and those from the tab to the carriage return are white space.
pub proof fn law_ascii_white_space(c: char)
    requires
        (c as u32) < 0x80,
    ensures
        is_space(c) <==> c == ' ' || c == '\t' || c == '\n' || c == '\r' || c as u32 == 0xb || c as u32
            == 0xc,
{
}

/// Lower and upper case differ from a text in the letters of the other case alone.
pub proof fn law_case_is_that_of_ascii_letters(s: Seq<char>, i: int)
    requires
        0 <= i < s.len(),
    ensures
        lower(s).len() == s.len(),
        upper(s).len() == s.len(),
        'A' <= s[i] <= 'Z' ==> lower(s)[i] as int == s[i] as int + 32 && upper(s)[i] == s[i],
        'a' <= s[i] <= 'z' ==> upper(s)[i] as int == s[i] as int - 32 && lower(s)[i] == s[i],
        !('A' <= s[i] <= 'Z') && !('a' <= s[i] <= 'z') ==> lower(s)[i] == s[i] && upper(s)[i] == s[i],
        lower(lower(s)) == lower(s),
{
    assert(lower(lower(s)) =~= lower(s)) by {
        assert forall|k: int| 0 <= k < s.len() implies lower(lower(s))[k] == lower(s)[k] by {}
    }
}

/// The lines of a text: the first ends at the first line feed, which a carriage return may precede, and the
/// lines of what follows are the others.
pub proof fn law_lines_end_at_line_feeds(a: Seq<char>, b: Seq<char>)
    requires
        forall|i: int| 0 <= i < a.len() ==> #[trigger] a[i] != '\n',
    ensures
        lines(a + seq!['\n'] + b) == seq![
            if a.len() > 0 && a.last() == '\r' {
                a.drop_last()
            } else {
                a
            },
        ] + lines(b),
        a.len() > 0 ==> lines(a) == seq![a],
        lines(Seq::empty()) == Seq::<Seq<char>>::empty(),
{
    lemma_line_ends(Seq::empty(), a, b);
    if a.len() > 0 {
        lemma_last_line(Seq::empty(), a);
    }
    assert(Seq::<char>::empty() + a =~= a);
}

/// A line that has been begun ends at the first line feed.
proof fn lemma_line_ends(cur: Seq<char>, a: Seq<char>, b: Seq<char>)
    requires
        forall|i: int| 0 <= i < a.len() ==> #[trigger] a[i] != '\n',
    ensures
        lines_after(cur, a + seq!['\n'] + b) == seq![strip_cr(cur + a)] + lines(b),
    decreases a.len(),
{
    let t = a + seq!['\n'] + b;
    if a.len() == 0 {
        assert(t[0] == '\n');
        assert(t.drop_first() =~= b);
        assert(cur + a =~= cur);
    } else {
        assert(t[0] == a[0]);
        let r = a.drop_first();
        assert forall|i: int| 0 <= i < r.len() implies #[trigger] r[i] != '\n' by {
            assert(r[i] == a[i + 1]);
        }
        lemma_line_ends(cur.push(a[0]), r, b);
        assert(t.drop_first() =~= r + seq!['\n'] + b);
        assert(cur.push(a[0]) + r =~= cur + a);
    }
}

/// A line that has been begun ends with the text.
proof fn lemma_last_line(cur: Seq<char>, a: Seq<char>)
    requires
        forall|i: int| 0 <= i < a.len() ==> #[trigger] a[i] != '\n',
        cur.len() + a.len() > 0,
    ensures
        lines_after(cur, a) == seq![cur + a],
    decreases a.len(),
{
    if a.len() == 0 {
        assert(cur + a =~= cur);
    } else {
        let r = a.drop_first();
        assert forall|i: int| 0 <= i < r.len() implies #[trigger] r[i] != '\n' by {
            assert(r[i] == a[i + 1]);
        }
        lemma_last_line(cur.push(a[0]), r);
        assert(cur.push(a[0]) + r =~= cur + a);
    }
}

/// The parts of two texts with a separator between them are those of the one and those of the other.
pub proof fn law_parts_are_between_separators(a: Seq<char>, b: Seq<char>, sep: char)
    ensures
        split(a + seq![sep] + b, sep) == split(a, sep) + split(b, sep),
        (forall|i: int| 0 <= i < a.len() ==> #[trigger] a[i] != sep) ==> split(a, sep) == seq![a],
{
    lemma_parts_add(Seq::empty(), a, b, sep);
    if forall|i: int| 0 <= i < a.len() ==> #[trigger] a[i] != sep {
        lemma_split_none(Seq::empty(), a, sep);
        assert(Seq::<char>::empty() + a =~= a);
    }
}

/// A part that has been begun goes on to the separator between two texts.
proof fn lemma_parts_add(cur: Seq<char>, a: Seq<char>, b: Seq<char>, sep: char)
    ensures
        split_after(cur, a + seq![sep] + b, sep) == split_after(cur, a, sep) + split(b, sep),
    decreases a.len(),
{
    let t = a + seq![sep] + b;
    if a.len() == 0 {
        assert(t[0] == sep);
        assert(t.drop_first() =~= b);
    } else {
        assert(t[0] == a[0]);
        let r = a.drop_first();
        assert(t.drop_first() =~= r + seq![sep] + b);
        if a[0] == sep {
            lemma_parts_add(Seq::empty(), r, b, sep);
            assert(seq![cur] + (split_after(Seq::empty(), r, sep) + split(b, sep)) =~= seq![cur]
                + split_after(Seq::empty(), r, sep) + split(b, sep));
        } else {
            lemma_parts_add(cur.push(a[0]), r, b, sep);
        }
    }
}

/// The words of a text are its runs without white space, in their order.
pub proof fn law_words_are_between_white_space(a: Seq<char>, c: char, b: Seq<char>)
    requires
        forall|i: int| 0 <= i < a.len() ==> !is_space(#[trigger] a[i]),
        is_space(c),
    ensures
        a.len() > 0 ==> words(a + seq![c] + b) == seq![a] + words(b),
        words(seq![c] + b) == words(b),
        a.len() > 0 ==> words(a) == seq![a],
        words(Seq::empty()) == Seq::<Seq<char>>::empty(),
{
    assert((seq![c] + b).drop_first() =~= b);
    if a.len() > 0 {
        lemma_word_ends(Seq::empty(), a, c, b);
        lemma_last_word(Seq::empty(), a);
        assert(Seq::<char>::empty() + a =~= a);
    }
}

/// A word that has been begun ends at the first white space.
proof fn lemma_word_ends(cur: Seq<char>, a: Seq<char>, c: char, b: Seq<char>)
    requires
        forall|i: int| 0 <= i < a.len() ==> !is_space(#[trigger] a[i]),
        is_space(c),
        cur.len() + a.len() > 0,
    ensures
        words_after(cur, a + seq![c] + b) == seq![cur + a] + words(b),
    decreases a.len(),
{
    let t = a + seq![c] + b;
    if a.len() == 0 {
        assert(t[0] == c);
        assert(t.drop_first() =~= b);
        assert(cur + a =~= cur);
    } else {
        assert(t[0] == a[0]);
        let r = a.drop_first();
        assert forall|i: int| 0 <= i < r.len() implies !is_space(#[trigger] r[i]) by {
            assert(r[i] == a[i + 1]);
        }
        lemma_word_ends(cur.push(a[0]), r, c, b);
        assert(t.drop_first() =~= r + seq![c] + b);
        assert(cur.push(a[0]) + r =~= cur + a);
    }
}

/// A word that has been begun ends with the text.
proof fn lemma_last_word(cur: Seq<char>, a: Seq<char>)
    requires
        forall|i: int| 0 <= i < a.len() ==> !is_space(#[trigger] a[i]),
        cur.len() + a.len() > 0,
    ensures
        words_after(cur, a) == seq![cur + a],
    decreases a.len(),
{
    if a.len() == 0 {
        assert(cur + a =~= cur);
    } else {
        let r = a.drop_first();
        assert forall|i: int| 0 <= i < r.len() implies !is_space(#[trigger] r[i]) by {
            assert(r[i] == a[i + 1]);
        }
        lemma_last_word(cur.push(a[0]), r);
        assert(cur.push(a[0]) + r =~= cur + a);
    }
}

/// Parts are joined in their order, with the separator between each two.
pub proof fn law_parts_are_joined_in_order(parts: Seq<Seq<char>>, part: Seq<char>, sep: Seq<char>)
    ensures
        join(Seq::empty(), sep) == Seq::<char>::empty(),
        join(seq![part], sep) == part,
        parts.len() > 0 ==> join(parts.push(part), sep) == join(parts, sep) + sep + part,
{
    assert(parts.push(part).drop_last() =~= parts);
}

/// A character is replaced wherever it stands, and the others stay.
pub proof fn law_characters_are_replaced_everywhere(
    s: Seq<char>,
    c: char,
    from: char,
    to: Seq<char>,
)
    ensures
        replace_char(Seq::empty(), from, to) == Seq::<char>::empty(),
        replace_char(s.push(from), from, to) == replace_char(s, from, to) + to,
        c != from ==> replace_char(s.push(c), from, to) == replace_char(s, from, to).push(c),
{
    assert(s.push(c).drop_last() =~= s);
    assert(s.push(from).drop_last() =~= s);
    assert(replace_char(s, from, to) + seq![c] =~= replace_char(s, from, to).push(c));
}

/// The first occurrence of a part is replaced, what precedes it stays, and what follows is treated in
/// turn; a text without the part stays.
pub proof fn law_parts_are_replaced_from_the_front(
    a: Seq<char>,
    part: Seq<char>,
    b: Seq<char>,
    with: Seq<char>,
)
    requires
        part.len() > 0,
    ensures
        (forall|i: int| 0 <= i < a.len() ==> !#[trigger] occurs_at(a + part + b, part, i)) ==> replaced(
            a + part + b,
            part,
            with,
        ) == a + with + replaced(b, part, with),
        !has_part(b, part) ==> replaced(b, part, with) == b,
{
    if forall|i: int| 0 <= i < a.len() ==> !#[trigger] occurs_at(a + part + b, part, i) {
        lemma_first_replaced(a, part, b, with);
    }
    if !has_part(b, part) {
        lemma_none_replaced(b, part, with);
    }
}

/// What precedes the first occurrence of a part stays.
proof fn lemma_first_replaced(a: Seq<char>, part: Seq<char>, b: Seq<char>, with: Seq<char>)
    requires
        part.len() > 0,
        forall|i: int| 0 <= i < a.len() ==> !#[trigger] occurs_at(a + part + b, part, i),
    ensures
        replaced(a + part + b, part, with) == a + with + replaced(b, part, with),
    decreases a.len(),
{
    let t = a + part + b;
    if a.len() == 0 {
        assert(t.take(part.len() as int) =~= part);
        assert(part.is_prefix_of(t));
        assert(t.skip(part.len() as int) =~= b);
        assert(a + with =~= with);
    } else {
        assert(!occurs_at(t, part, 0));
        assert(!part.is_prefix_of(t)) by {
            if part.is_prefix_of(t) {
                assert(t.subrange(0, 0 + part.len() as int) =~= part);
            }
        }
        let r = a.drop_first();
        assert(t.drop_first() =~= r + part + b);
        assert forall|i: int| 0 <= i < r.len() implies !#[trigger] occurs_at(r + part + b, part, i) by {
            if occurs_at(r + part + b, part, i) {
                assert(t.subrange(i + 1, i + 1 + part.len()) =~= (r + part + b).subrange(
                    i,
                    i + part.len(),
                ));
                assert(occurs_at(t, part, i + 1));
            }
        }
        lemma_first_replaced(r, part, b, with);
        assert(seq![t[0]] + (r + with + replaced(b, part, with)) =~= a + with + replaced(b, part, with));
    }
}

/// A text without the part stays.
proof fn lemma_none_replaced(s: Seq<char>, part: Seq<char>, with: Seq<char>)
    requires
        part.len() > 0,
        !has_part(s, part),
    ensures
        replaced(s, part, with) == s,
    decreases s.len(),
{
    if s.len() >= part.len() {
        assert(!occurs_at(s, part, 0));
        assert(!part.is_prefix_of(s)) by {
            if part.is_prefix_of(s) {
                assert(s.subrange(0, 0 + part.len() as int) =~= part);
            }
        }
        let r = s.drop_first();
        assert(!has_part(r, part)) by {
            if has_part(r, part) {
                let i = choose|i: int| #[trigger] occurs_at(r, part, i);
                assert(s.subrange(i + 1, i + 1 + part.len()) =~= r.subrange(i, i + part.len()));
                assert(occurs_at(s, part, i + 1));
            }
        }
        lemma_none_replaced(r, part, with);
        assert(seq![s[0]] + r =~= s);
    }
}

/// Only characters of the set are trimmed off the front, and all of them.
pub proof fn law_fronts_are_trimmed_of_the_set(s: Seq<char>, set: Seq<char>) -> (a: int)
    ensures
        0 <= a <= s.len(),
        trim_front_of(s, set) == s.skip(a),
        forall|i: int| 0 <= i < a ==> set.contains(#[trigger] s[i]),
        a < s.len() ==> !set.contains(s[a]),
    decreases s.len(),
{
    if s.len() > 0 && set.contains(s[0]) {
        let t = s.drop_first();
        let b = law_fronts_are_trimmed_of_the_set(t, set);
        assert(t.skip(b) =~= s.skip(b + 1));
        assert forall|i: int| 0 <= i < b + 1 implies set.contains(#[trigger] s[i]) by {
            if i > 0 {
                assert(t[i - 1] == s[i]);
            }
        }
        if b < t.len() {
            assert(t[b] == s[b + 1]);
        }
        b + 1
    } else {
        assert(s.skip(0) =~= s);
        0
    }
}

/// Only characters of the set are trimmed off the back, and all of them.
pub proof fn law_backs_are_trimmed_of_the_set(s: Seq<char>, set: Seq<char>) -> (b: int)
    ensures
        0 <= b <= s.len(),
        trim_back_of(s, set) == s.take(b),
        forall|i: int| b <= i < s.len() ==> set.contains(#[trigger] s[i]),
        b > 0 ==> !set.contains(s[b - 1]),
    decreases s.len(),
{
    if s.len() > 0 && set.contains(s.last()) {
        let t = s.drop_last();
        let b = law_backs_are_trimmed_of_the_set(t, set);
        assert(t.take(b) =~= s.take(b));
        assert forall|i: int| b <= i < s.len() implies set.contains(#[trigger] s[i]) by {
            if i < t.len() {
                assert(t[i] == s[i]);
            }
        }
        if b > 0 {
            assert(t[b - 1] == s[b - 1]);
        }
        b
    } else {
        assert(s.take(s.len() as int) =~= s);
        s.len() as int
    }
}

/// What follows a prefix is what was behind it, and nothing follows one that is not there.
pub proof fn law_prefixes_come_off(prefix: Seq<char>, s: Seq<char>)
    ensures
        after_prefix(prefix + s, prefix) == Some(s),
        after_prefix(s, prefix) matches Some(rest) ==> s == prefix + rest,
        after_prefix(s, prefix) is None <==> !prefix.is_prefix_of(s),
{
    assert((prefix + s).take(prefix.len() as int) =~= prefix);
    assert((prefix + s).skip(prefix.len() as int) =~= s);
    if prefix.is_prefix_of(s) {
        assert(s =~= prefix + s.skip(prefix.len() as int));
    }
}

/// A text is divided at its first separator, and not at all without one.
pub proof fn law_texts_divide_at_the_first_separator(a: Seq<char>, b: Seq<char>, sep: char)
    requires
        forall|i: int| 0 <= i < a.len() ==> #[trigger] a[i] != sep,
    ensures
        split_once(a + seq![sep] + b, sep) == Some((a, b)),
        split_once(a, sep) is None,
{
    let t = a + seq![sep] + b;
    lemma_char_from(t, sep, 0, a.len() as int);
    assert(t.take(a.len() as int) =~= a);
    assert(t.skip(a.len() as int + 1) =~= b);
    lemma_char_from(a, sep, 0, a.len() as int);
}

/// A character stands first where it stands and does not stand before.
proof fn lemma_char_from(s: Seq<char>, c: char, i: int, k: int)
    requires
        0 <= i <= k <= s.len(),
        k < s.len() ==> s[k] == c,
        forall|j: int| i <= j < k ==> #[trigger] s[j] != c,
    ensures
        char_from(s, c, i) == k,
    decreases k - i,
{
    if i < k {
        assert(s[i] != c);
        lemma_char_from(s, c, i + 1, k);
    }
}

/// A number is read from its decimal notation, with a plus sign or without, as long as it is not too
/// large; a text with anything else is none.
pub proof fn law_numbers_are_read(n: nat, max: nat, s: Seq<char>)
    ensures
        n <= max ==> unsigned_value(decimal(n), max) == Some(n) && unsigned_value(
            seq!['+'] + decimal(n),
            max,
        ) == Some(n),
        n > max ==> unsigned_value(decimal(n), max) is None,
        s.len() == 0 ==> unsigned_value(s, max) is None,
        (exists|i: int| 1 <= i < s.len() && !('0' <= #[trigger] s[i] <= '9')) ==> unsigned_value(s, max)
            is None,
{
    law_decimal_reads_back(n);
    let d = decimal(n);
    assert(is_digit(d[0]));
    assert((seq!['+'] + d).drop_first() =~= d);
    if exists|i: int| 1 <= i < s.len() && !('0' <= #[trigger] s[i] <= '9') {
        let i = choose|i: int| 1 <= i < s.len() && !('0' <= #[trigger] s[i] <= '9');
        let u = unsigned_digits(s);
        if s[0] == '+' {
            assert(u[i - 1] == s[i]);
        } else {
            assert(u[i] == s[i]);
        }
    }
}

/// The bytes of two texts in a row are those of the one and those of the other.
pub proof fn law_bytes_add_up(a: Seq<char>, b: Seq<char>)
    ensures
        byte_len(a + b) == byte_len(a) + byte_len(b),
    decreases b.len(),
{
    if b.len() == 0 {
        assert(a + b =~= a);
    } else {
        law_bytes_add_up(a, b.drop_last());
        assert((a + b).drop_last() =~= a + b.drop_last());
    }
}

/// A negative number has its sign in front.
pub proof fn law_signs_stand_in_front(n: nat)
    ensures
        decimal_int(n as int) == decimal(n),
        n > 0 ==> decimal_int(-(n as int)) == "-"@ + decimal(n),
{
}

} // verus!
