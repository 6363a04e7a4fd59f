//! Prompt templates with `{{key}}` tokens.

use crate::errors::DispatchError;
use crate::text::{
    cat3, chars_of, first_at, has_key, lemma_first_at_is, push_char, str_eq, str_trim, trim,
};
use vstd::prelude::*;
use vstd::string::*;

verus! {

/// Template values: keys, each with its value.
pub open spec fn pairs(values: Seq<(&str, &str)>) -> Seq<(Seq<char>, Seq<char>)> {
    values.map_values(|p: (&str, &str)| (p.0@, p.1@))
}

/// The keys of template values.
pub open spec fn value_keys(values: Seq<(Seq<char>, Seq<char>)>) -> Seq<Seq<char>> {
    values.map_values(|p: (Seq<char>, Seq<char>)| p.0)
}

/// The index from `i` on at which a token closes, the length of the text where none does.
pub open spec fn closes_at(t: Seq<char>, i: int) -> int
    decreases t.len() - i,
{
    if i + 1 >= t.len() {
        t.len() as int
    } else if t[i] == '}' && t[i + 1] == '}' {
        i
    } else {
        closes_at(t, i + 1)
    }
}

/// The text begins with a token.
pub open spec fn opens_token(t: Seq<char>) -> bool {
    t.len() >= 2 && t[0] == '{' && t[1] == '{' && closes_at(t, 2) < t.len()
}

/// What the template becomes, given what has been written: each token gives way to its value, which
/// is not looked at again; the first token without a value is an error.
pub open spec fn rendered_after(
    out: Seq<char>,
    rest: Seq<char>,
    values: Seq<(Seq<char>, Seq<char>)>,
) -> Result<
    Seq<char>,
    Seq<char>,
>
    decreases rest.len(),
{
    if rest.len() == 0 {
        Ok(out)
    } else if opens_token(rest) {
        let c = closes_at(rest, 2);
        let key = trim(rest.subrange(2, c));
        if 2 <= c && c + 2 <= rest.len() {
            if !has_key(value_keys(values), key) {
                Err("unresolved template token '{{"@ + key + "}}'"@)
            } else {
                rendered_after(
                    out + values[first_at(value_keys(values), key)].1,
                    rest.skip(c + 2),
                    values,
                )
            }
        } else {
            Ok(out)
        }
    } else {
        rendered_after(out.push(rest[0]), rest.drop_first(), values)
    }
}

/// What a template becomes with the given values.
pub open spec fn rendered(template: Seq<char>, values: Seq<(Seq<char>, Seq<char>)>) -> Result<
    Seq<char>,
    Seq<char>,
> {
    rendered_after(Seq::empty(), template, values)
}

/// Where a token closes, it closes behind its two opening and before its two closing braces.
proof fn lemma_closes_at(t: Seq<char>, i: int)
    requires
        0 <= i,
    ensures
        closes_at(t, i) < t.len() ==> i <= closes_at(t, i) && closes_at(t, i) + 2 <= t.len(),
        closes_at(t, i) <= t.len(),
    decreases t.len() - i,
{
    if i + 1 < t.len() && !(t[i] == '}' && t[i + 1] == '}') {
        lemma_closes_at(t, i + 1);
    }
}

/// Where a token of a tail closes, seen from the whole text.
proof fn lemma_closes_in_tail(t: Seq<char>, at: int, i: int)
    requires
        0 <= at <= t.len(),
        0 <= i,
    ensures
        closes_at(t.skip(at), i) + at == closes_at(t, at + i),
    decreases t.len() - at - i,
{
    if at + i + 1 < t.len() {
        assert(t.skip(at)[i] == t[at + i]);
        assert(t.skip(at)[i + 1] == t[at + i + 1]);
        if !(t[at + i] == '}' && t[at + i + 1] == '}') {
            lemma_closes_in_tail(t, at, i + 1);
        }
    }
}

/// The index from `i` on at which a token closes.
fn find_close(cs: &Vec<char>, i: usize) -> (r: usize)
    requires
        i <= cs@.len(),
    ensures
        r == closes_at(cs@, i as int),
{
    let mut j: usize = i;
    while j < cs.len() && j + 1 < cs.len() && !(cs[j] == '}' && cs[j + 1] == '}')
        invariant
            i <= j <= cs@.len(),
            closes_at(cs@, i as int) == closes_at(cs@, j as int),
        decreases cs.len() - j,
    {
        j = j + 1;
    }
    if j < cs.len() && j + 1 < cs.len() {
        j
    } else {
        cs.len()
    }
}

/// The value of a key.
fn find_value<'a>(values: &[(&'a str, &'a str)], key: &str) -> (r: Option<&'a str>)
    ensures
        r is Some <==> has_key(value_keys(pairs(values@)), key@),
        r matches Some(v) ==> v@ == pairs(values@)[first_at(value_keys(pairs(values@)), key@)].1,
{
    let ghost keys = value_keys(pairs(values@));
    let mut i: usize = 0;
    while i < values.len()
        invariant
            i <= values@.len(),
            keys == value_keys(pairs(values@)),
            forall|k: int| 0 <= k < i ==> #[trigger] keys[k] != key@,
        decreases values.len() - i,
    {
        let pair = values[i];
        proof {
            assert(keys[i as int] == pair.0@);
        }
        if str_eq(pair.0, key) {
            proof {
                lemma_first_at_is(keys, key@, i as int);
            }
            return Some(pair.1);
        }
        i = i + 1;
    }
    proof {
        lemma_first_at_is(keys, key@, i as int);
    }
    None
}

/// Renders a template: each `{{key}}` gives way to its value, in one pass, so that braces in a value
/// stay as they are. A token without a value is refused.
pub fn render_prompt(template: &str, values: &[(&str, &str)]) -> (r: Result<String, DispatchError>)
    ensures
        match rendered(template@, pairs(values@)) {
            Ok(t) => r matches Ok(x) && x@ == t,
            Err(m) => r matches Err(DispatchError::PromptTemplate(x)) && x@ == m,
        },
{
    let cs = chars_of(template);
    let mut out: String = String::new();
    let mut i: usize = 0;
    let ghost goal = rendered(template@, pairs(values@));
    proof {
        assert(template@.skip(0) =~= template@);
    }
    while i < cs.len()
        invariant
            i <= cs@.len(),
            cs@ == template@,
            goal == rendered(template@, pairs(values@)),
            rendered_after(out@, template@.skip(i as int), pairs(values@)) == goal,
        decreases cs.len() - i,
    {
        let ghost rest = template@.skip(i as int);
        proof {
            assert(rest[0] == cs@[i as int]);
            if rest.len() >= 2 {
                assert(rest[1] == cs@[i + 1]);
            }
            assert(rest.drop_first() =~= template@.skip(i + 1));
            lemma_closes_at(rest, 2);
            lemma_closes_in_tail(template@, i as int, 2);
        }
        if cs.len() - i >= 2 && cs[i] == '{' && cs[i + 1] == '{' {
            let c: usize = find_close(&cs, i + 2);
            if c < cs.len() {
                let inner = template.substring_char(i + 2, c);
                let key = str_trim(inner);
                proof {
                    assert(rest.subrange(2, c - i) =~= template@.subrange(i + 2, c as int));
                    assert(rest.skip(c - i + 2) =~= template@.skip(c + 2));
                }
                match find_value(values, key) {
                    Some(v) => {
                        out.append(v);
                    },
                    None => {
                        return Err(
                            DispatchError::PromptTemplate(
                                cat3("unresolved template token '{{", key, "}}'"),
                            ),
                        );
                    },
                }
                i = c + 2;
                continue;
            }
        }
        push_char(&mut out, cs[i]);
        i = i + 1;
    }
    Ok(out)
}

/// A text without an opening pair of braces is rendered as it stands, whatever the values.
pub proof fn law_plain_text_renders_to_itself(
    out: Seq<char>,
    t: Seq<char>,
    values: Seq<(Seq<char>, Seq<char>)>,
)
    requires
        forall|i: int| 0 <= i < t.len() ==> #[trigger] t[i] != '{',
    ensures
        rendered_after(out, t, values) == Ok::<Seq<char>, Seq<char>>(out + t),
    decreases t.len(),
{
    if t.len() == 0 {
        assert(out + t =~= out);
    } else {
        law_plain_text_renders_to_itself(out.push(t[0]), t.drop_first(), values);
        assert(out.push(t[0]) + t.drop_first() =~= out + t);
    }
}

/// A value is inserted as it is: a template that is one token renders to the value, braces in it
/// included.
pub proof fn law_values_are_not_rendered_again(key: Seq<char>, values: Seq<(Seq<char>, Seq<char>)>)
    requires
        trim(key) == key,
        has_key(value_keys(values), key),
        forall|i: int| 0 <= i < key.len() ==> #[trigger] key[i] != '}',
    ensures
        rendered(seq!['{', '{'] + key + seq!['}', '}'], values) == Ok::<Seq<char>, Seq<char>>(
            values[first_at(value_keys(values), key)].1,
        ),
{
    let t = seq!['{', '{'] + key + seq!['}', '}'];
    lemma_token_closes(key, 0);
    assert(t.subrange(2, 2 + key.len() as int) =~= key);
    assert(t.skip(2 + key.len() as int + 2) =~= Seq::<char>::empty());
    let v = values[first_at(value_keys(values), key)].1;
    assert(Seq::<char>::empty() + v =~= v);
    assert(rendered_after(v, Seq::empty(), values) == Ok::<Seq<char>, Seq<char>>(v));
}

/// A token whose key has no closing brace closes behind the key.
proof fn lemma_token_closes(key: Seq<char>, i: int)
    requires
        0 <= i <= key.len(),
        forall|k: int| 0 <= k < key.len() ==> #[trigger] key[k] != '}',
    ensures
        closes_at(seq!['{', '{'] + key + seq!['}', '}'], 2 + i) == 2 + key.len(),
    decreases key.len() - i,
{
    let t = seq!['{', '{'] + key + seq!['}', '}'];
    if i < key.len() {
        assert(t[2 + i] == key[i]);
        lemma_token_closes(key, i + 1);
    } else {
        assert(t[2 + i] == '}');
        assert(t[2 + i + 1] == '}');
    }
}

/// A token that other text follows closes behind its key.
proof fn lemma_token_closes_before(key: Seq<char>, rest: Seq<char>, i: int)
    requires
        0 <= i <= key.len(),
        forall|k: int| 0 <= k < key.len() ==> #[trigger] key[k] != '}',
    ensures
        closes_at(seq!['{', '{'] + key + seq!['}', '}'] + rest, 2 + i) == 2 + key.len(),
    decreases key.len() - i,
{
    let t = seq!['{', '{'] + key + seq!['}', '}'] + rest;
    if i < key.len() {
        assert(t[2 + i] == key[i]);
        lemma_token_closes_before(key, rest, i + 1);
    } else {
        assert(t[2 + i] == '}');
        assert(t[3 + i] == '}');
    }
}

/// A template is rendered part by part: what stands before a token is taken as it is, the token gives way
/// to the first value of its key, and what follows is rendered in turn; a token whose key has no value is
/// an error that names the key.
pub proof fn law_templates_render_part_by_part(
    out: Seq<char>,
    plain: Seq<char>,
    key: Seq<char>,
    rest: Seq<char>,
    values: Seq<(Seq<char>, Seq<char>)>,
    k: int,
)
    requires
        forall|i: int| 0 <= i < plain.len() ==> #[trigger] plain[i] != '{',
        forall|i: int| 0 <= i < key.len() ==> #[trigger] key[i] != '}',
        0 <= k <= values.len(),
        k < values.len() ==> values[k].0 == trim(key),
        forall|i: int| 0 <= i < k ==> (#[trigger] values[i]).0 != trim(key),
    ensures
        rendered_after(out, plain + (seq!['{', '{'] + key + seq!['}', '}'] + rest), values) == (if k
            < values.len() {
            rendered_after(out + plain + values[k].1, rest, values)
        } else {
            Err::<Seq<char>, Seq<char>>("unresolved template token '{{"@ + trim(key) + "}}'"@)
        }),
    decreases plain.len(),
{
    let token = seq!['{', '{'] + key + seq!['}', '}'] + rest;
    let t = plain + token;
    if plain.len() == 0 {
        assert(t =~= token);
        assert(t[0] == '{' && t[1] == '{');
        lemma_token_closes_before(key, rest, 0);
        assert(closes_at(t, 2) == 2 + key.len());
        assert(t.subrange(2, 2 + key.len() as int) =~= key);
        assert(t.skip(2 + key.len() as int + 2) =~= rest);
        lemma_first_at_is(value_keys(values), trim(key), k);
        assert(out + plain =~= out);
    } else {
        assert(t[0] == plain[0]);
        assert(!opens_token(t));
        let p = plain.drop_first();
        assert forall|i: int| 0 <= i < p.len() implies #[trigger] p[i] != '{' by {
            assert(p[i] == plain[i + 1]);
        }
        law_templates_render_part_by_part(out.push(plain[0]), p, key, rest, values, k);
        assert(t.drop_first() =~= p + token);
        assert(out.push(plain[0]) + p =~= out + plain);
    }
}

} // verus!
