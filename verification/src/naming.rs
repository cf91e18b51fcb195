//! Case conversions that the message macro uses to name modules and enum variants.
use vstd::prelude::*;

verus! {

/// The ASCII upper-case form of `c`: `'a'..='z'` shift to `'A'..='Z'`, all other
/// characters stay as they are.
pub open spec fn ascii_upper(c: char) -> char {
    if 'a' <= c && c <= 'z' {
        ((c as int) - 32) as char
    } else {
        c
    }
}

/// The ASCII lower-case form of `c`: `'A'..='Z'` shift to `'a'..='z'`, all other
/// characters stay as they are.
pub open spec fn ascii_lower(c: char) -> char {
    if 'A' <= c && c <= 'Z' {
        ((c as int) + 32) as char
    } else {
        c
    }
}

/// Whether `c` has the Unicode `Uppercase` property, as `char::is_uppercase` reports it.
pub uninterp spec fn unicode_uppercase(c: char) -> bool;

/// Whether `c` is upper case: among ASCII characters exactly `'A'..='Z'`, beyond ASCII
/// as Unicode's `Uppercase` property says.
pub open spec fn is_upper(c: char) -> bool {
    if (c as u32) < 128 {
        'A' <= c && c <= 'Z'
    } else {
        unicode_uppercase(c)
    }
}

/// The ASCII upper-case form of `c`, as `char::to_ascii_uppercase` gives it.
fn char_to_ascii_uppercase(c: char) -> (r: char)
    ensures
        r == ascii_upper(c),
{
    if 'a' <= c && c <= 'z' {
        ((c as u8) - 32) as char
    } else {
        c
    }
}

/// The ASCII lower-case form of `c`, as `char::to_ascii_lowercase` gives it.
fn char_to_ascii_lowercase(c: char) -> (r: char)
    ensures
        r == ascii_lower(c),
{
    if 'A' <= c && c <= 'Z' {
        ((c as u8) + 32) as char
    } else {
        c
    }
}

/// `char::is_uppercase`: the Unicode `Uppercase` property of `c`. Its result is named;
/// the one fact stated of it is the ASCII range, where exactly `'A'..='Z'` are upper case.
#[verifier::external_body]
fn char_is_uppercase(c: char) -> (r: bool)
    ensures
        r == unicode_uppercase(c),
        r == is_upper(c),
{
    c.is_uppercase()
}

/// `String::push`: appends one character.
#[verifier::external_body]
pub(crate) fn string_push(s: &mut String, c: char)
    ensures
        final(s)@ == old(s)@.push(c),
{
    s.push(c)
}

/// The PascalCase conversion, read left to right: the pair of the text produced so far
/// and whether the next character that is not `'_'` starts a new word.
pub open spec fn pascal_state(s: Seq<char>) -> (Seq<char>, bool)
    decreases s.len(),
{
    if s.len() == 0 {
        (Seq::empty(), true)
    } else {
        let (out, cap) = pascal_state(s.drop_last());
        let c = s.last();
        if c == '_' {
            (out, true)
        } else if cap {
            (out.push(ascii_upper(c)), false)
        } else {
            (out.push(c), false)
        }
    }
}

/// `s` in PascalCase: every `'_'` is dropped, and the first character and each one
/// that follows a run of `'_'` is turned into its ASCII upper-case form.
pub open spec fn pascal_case(s: Seq<char>) -> Seq<char> {
    pascal_state(s).0
}

/// Converts a snake_case name, such as a method's, into PascalCase, such as an enum
/// variant's: `"get_value"` becomes `"GetValue"`.
pub fn to_pascal_case(s: &str) -> (pascal: String)
    ensures
        pascal@ == pascal_case(s@),
{
    broadcast use vstd::string::group_string_axioms;
    let mut pascal = String::new();
    let mut capitalize_next = true;
    for c in it: s.chars()
        invariant
            it.seq() == s@,
            (pascal@, capitalize_next) == pascal_state(s@.take(it.index() as int)),
    {
        assert(s@.take(it.index() as int + 1).drop_last() == s@.take(it.index() as int));
        if c == '_' {
            capitalize_next = true;
        } else if capitalize_next {
            string_push(&mut pascal, char_to_ascii_uppercase(c));
            capitalize_next = false;
        } else {
            string_push(&mut pascal, c);
        }
    }
    assert(s@.take(s@.len() as int) == s@);
    pascal
}

/// `s` in snake_case: each character is put in its ASCII lower-case form, and every
/// character but the first that is upper case gets a `'_'` before it.
pub open spec fn snake_case(s: Seq<char>) -> Seq<char>
    decreases s.len(),
{
    if s.len() == 0 {
        Seq::empty()
    } else {
        let prev = snake_case(s.drop_last());
        let c = s.last();
        let sep = if s.len() > 1 && is_upper(c) {
            prev.push('_')
        } else {
            prev
        };
        sep.push(ascii_lower(c))
    }
}

/// Converts a PascalCase name, such as a type's, into snake_case, such as a module's:
/// `"MyActor"` becomes `"my_actor"`.
pub fn to_snake_case(s: &str) -> (snake: String)
    ensures
        snake@ == snake_case(s@),
{
    broadcast use vstd::string::group_string_axioms;
    let mut snake = String::new();
    let mut first = true;
    for ch in it: s.chars()
        invariant
            it.seq() == s@,
            snake@ == snake_case(s@.take(it.index() as int)),
            first <==> it.index() == 0,
    {
        assert(s@.take(it.index() as int + 1).drop_last() == s@.take(it.index() as int));
        if !first && char_is_uppercase(ch) {
            string_push(&mut snake, '_');
        }
        string_push(&mut snake, char_to_ascii_lowercase(ch));
        first = false;
    }
    assert(s@.take(s@.len() as int) == s@);
    snake
}

/// A method name in snake_case: a lower-case ASCII letter, then lower-case ASCII
/// letters, digits and underscores, where each underscore is followed by a lower-case
/// letter.
pub open spec fn is_snake_name(s: Seq<char>) -> bool {
    &&& s.len() > 0
    &&& 'a' <= s[0] && s[0] <= 'z'
    &&& forall|i: int|
        0 <= i < s.len() ==> ('a' <= #[trigger] s[i] && s[i] <= 'z') || ('0' <= s[i] && s[i]
            <= '9') || s[i] == '_'
    &&& forall|i: int|
        0 <= i < s.len() && #[trigger] s[i] == '_' ==> i + 1 < s.len() && 'a' <= s[i + 1] && s[i
            + 1] <= 'z'
}

proof fn lemma_pascal_state_shape(s: Seq<char>)
    ensures
        forall|i: int| 0 <= i < pascal_state(s).0.len() ==> #[trigger] pascal_state(s).0[i] != '_',
        pascal_state(s).0.len() > 0 ==> ascii_upper(pascal_state(s).0[0]) == pascal_state(s).0[0],
        pascal_state(s).0.len() == 0 ==> pascal_state(s).1,
    decreases s.len(),
{
    if s.len() > 0 {
        lemma_pascal_state_shape(s.drop_last());
    }
}

/// PascalCase has no underscores.
pub proof fn lemma_pascal_case_has_no_underscore(s: Seq<char>)
    ensures
        forall|i: int| 0 <= i < pascal_case(s).len() ==> #[trigger] pascal_case(s)[i] != '_',
{
    lemma_pascal_state_shape(s);
}

proof fn lemma_pascal_state_without_underscores(u: Seq<char>)
    requires
        forall|i: int| 0 <= i < u.len() ==> #[trigger] u[i] != '_',
    ensures
        u.len() == 0 ==> pascal_state(u) == (Seq::<char>::empty(), true),
        u.len() > 0 ==> pascal_state(u) == (seq![ascii_upper(u[0])] + u.skip(1), false),
    decreases u.len(),
{
    if u.len() > 0 {
        let p = u.drop_last();
        lemma_pascal_state_without_underscores(p);
        assert(u.last() == u[u.len() - 1]);
        if p.len() > 0 {
            assert(seq![ascii_upper(p[0])] + p.skip(1) + seq![u.last()] =~= seq![ascii_upper(u[0])]
                + u.skip(1));
        } else {
            assert(u.skip(1) =~= Seq::<char>::empty());
        }
    }
}

/// Converting to PascalCase twice gives what converting once gives.
pub proof fn lemma_pascal_case_idempotent(s: Seq<char>)
    ensures
        pascal_case(pascal_case(s)) == pascal_case(s),
{
    let t = pascal_case(s);
    lemma_pascal_state_shape(s);
    lemma_pascal_state_without_underscores(t);
    if t.len() > 0 {
        assert(seq![ascii_upper(t[0])] + t.skip(1) =~= t);
    }
}

/// snake_case has no upper-case ASCII letters.
pub proof fn lemma_snake_case_has_no_ascii_upper(s: Seq<char>)
    ensures
        forall|i: int|
            0 <= i < snake_case(s).len() ==> !('A' <= #[trigger] snake_case(s)[i] && snake_case(
                s,
            )[i] <= 'Z'),
    decreases s.len(),
{
    if s.len() > 0 {
        lemma_snake_case_has_no_ascii_upper(s.drop_last());
        let prev = snake_case(s.drop_last());
        let c = s.last();
        let sep = if s.len() > 1 && is_upper(c) {
            prev.push('_')
        } else {
            prev
        };
        assert forall|i: int| 0 <= i < sep.len() implies !('A' <= #[trigger] sep[i] && sep[i] <= 'Z') by {
            if i < prev.len() {
                assert(sep[i] == prev[i]);
            }
        }
        assert(snake_case(s) == sep.push(ascii_lower(c)));
        assert forall|i: int| 0 <= i < snake_case(s).len() implies !('A' <= #[trigger] snake_case(s)[i]
            && snake_case(s)[i] <= 'Z') by {
            if i < sep.len() {
                assert(snake_case(s)[i] == sep[i]);
            }
        }
    }
}

proof fn lemma_snake_of_pascal_prefix(s: Seq<char>, k: int)
    requires
        is_snake_name(s),
        1 <= k <= s.len(),
    ensures
        pascal_state(s.take(k)).0.len() > 0,
        pascal_state(s.take(k)).1 == (s[k - 1] == '_'),
        s[k - 1] == '_' ==> snake_case(pascal_state(s.take(k)).0) == s.take(k - 1),
        s[k - 1] != '_' ==> snake_case(pascal_state(s.take(k)).0) == s.take(k),
    decreases k,
{
    let p = s.take(k);
    assert(p.drop_last() == s.take(k - 1));
    assert(p.last() == s[k - 1]);
    let c = s[k - 1];
    if k == 1 {
        assert(s.take(0) == Seq::<char>::empty());
        let out = seq![ascii_upper(c)];
        assert(p.drop_last() == Seq::<char>::empty());
        assert(pascal_state(Seq::<char>::empty()) == (Seq::<char>::empty(), true));
        assert('a' <= c && c <= 'z');
        assert(c != '_');
        assert(pascal_state(p).0 == Seq::<char>::empty().push(ascii_upper(c)));
        assert(out.drop_last() =~= Seq::<char>::empty());
        assert(snake_case(Seq::<char>::empty()) == Seq::<char>::empty());
        assert(out.last() == ascii_upper(c));
        assert(snake_case(out) == Seq::<char>::empty().push(ascii_lower(ascii_upper(c))));
        assert(snake_case(pascal_state(p).0) =~= p);
    } else {
        lemma_snake_of_pascal_prefix(s, k - 1);
        let prev = pascal_state(s.take(k - 1));
        let d = s[k - 2];
        if c == '_' {
            assert(d != '_');
        } else if d == '_' {
            let out = prev.0.push(ascii_upper(c));
            assert('a' <= c && c <= 'z');
            assert(out.drop_last() == prev.0);
            assert(out.last() == ascii_upper(c));
            assert(is_upper(ascii_upper(c)));
            assert(snake_case(out) == snake_case(prev.0).push('_').push(c));
            assert(s.take(k - 1) == s.take(k - 2).push('_'));
            assert(p == s.take(k - 1).push(c));
        } else {
            let out = prev.0.push(c);
            assert(out.drop_last() == prev.0);
            assert(out.last() == c);
            assert(!is_upper(c));
            assert(ascii_lower(c) == c);
            assert(snake_case(out) == snake_case(prev.0).push(c));
            assert(p == s.take(k - 1).push(c));
        }
    }
}

/// A snake_case method name comes back from its PascalCase variant name.
pub proof fn lemma_snake_case_inverts_pascal_case(s: Seq<char>)
    requires
        is_snake_name(s),
    ensures
        snake_case(pascal_case(s)) == s,
{
    lemma_snake_of_pascal_prefix(s, s.len() as int);
    assert(s.take(s.len() as int) == s);
    assert(s[s.len() - 1] != '_');
}

/// Distinct snake_case method names give distinct PascalCase variant names.
pub proof fn lemma_pascal_case_distinguishes_snake_names(a: Seq<char>, b: Seq<char>)
    requires
        is_snake_name(a),
        is_snake_name(b),
        a != b,
    ensures
        pascal_case(a) != pascal_case(b),
{
    lemma_snake_case_inverts_pascal_case(a);
    lemma_snake_case_inverts_pascal_case(b);
}

/// Every character of `s` is ASCII.
pub open spec fn is_ascii_text(s: Seq<char>) -> bool {
    forall|i: int| 0 <= i < s.len() ==> (#[trigger] s[i] as u32) < 128
}

/// A type name in PascalCase: ASCII, starting with an upper-case letter, without
/// underscores.
pub open spec fn is_pascal_name(s: Seq<char>) -> bool {
    &&& s.len() > 0
    &&& is_ascii_text(s)
    &&& 'A' <= s[0] && s[0] <= 'Z'
    &&& forall|i: int| 0 <= i < s.len() ==> #[trigger] s[i] != '_'
}

proof fn lemma_pascal_of_snake_prefix(s: Seq<char>, k: int)
    requires
        is_pascal_name(s),
        1 <= k <= s.len(),
    ensures
        pascal_state(snake_case(s.take(k))) == (s.take(k), false),
    decreases k,
{
    let p = s.take(k);
    let c = s[k - 1];
    assert(p.drop_last() == s.take(k - 1));
    assert(p.last() == c);
    assert((c as u32) < 128);
    if k == 1 {
        let l = ascii_lower(c);
        assert(s.take(0) == Seq::<char>::empty());
        assert(snake_case(Seq::<char>::empty()) == Seq::<char>::empty());
        assert(snake_case(p) == Seq::<char>::empty().push(l));
        let t = Seq::<char>::empty().push(l);
        assert(t.drop_last() == Seq::<char>::empty());
        assert(t.last() == l);
        assert(pascal_state(Seq::<char>::empty()) == (Seq::<char>::empty(), true));
        assert(ascii_upper(l) == c);
        assert(pascal_state(t) == (Seq::<char>::empty().push(c), false));
        assert(p == Seq::<char>::empty().push(c));
    } else {
        lemma_pascal_of_snake_prefix(s, k - 1);
        let prev = snake_case(s.take(k - 1));
        assert(c != '_');
        if 'A' <= c && c <= 'Z' {
            assert(is_upper(c));
            let u = prev.push('_');
            let t = u.push(ascii_lower(c));
            assert(snake_case(p) == t);
            assert(u.drop_last() == prev && u.last() == '_');
            assert(pascal_state(u) == (s.take(k - 1), true));
            assert(t.drop_last() == u && t.last() == ascii_lower(c));
            assert(ascii_upper(ascii_lower(c)) == c);
            assert(pascal_state(t) == (s.take(k - 1).push(c), false));
        } else {
            assert(!is_upper(c));
            assert(ascii_lower(c) == c);
            let t = prev.push(c);
            assert(snake_case(p) == t);
            assert(t.drop_last() == prev && t.last() == c);
            assert(pascal_state(t) == (s.take(k - 1).push(c), false));
        }
        assert(p == s.take(k - 1).push(c));
    }
}

/// A PascalCase type name comes back from its snake_case module name.
pub proof fn lemma_pascal_case_inverts_snake_case(s: Seq<char>)
    requires
        is_pascal_name(s),
    ensures
        pascal_case(snake_case(s)) == s,
{
    lemma_pascal_of_snake_prefix(s, s.len() as int);
    assert(s.take(s.len() as int) == s);
}

/// ASCII text without upper-case letters is its own snake_case.
pub proof fn lemma_snake_case_keeps_lower_ascii(t: Seq<char>)
    requires
        is_ascii_text(t),
        forall|i: int| 0 <= i < t.len() ==> !('A' <= #[trigger] t[i] && t[i] <= 'Z'),
    ensures
        snake_case(t) == t,
    decreases t.len(),
{
    if t.len() > 0 {
        let c = t.last();
        assert(c == t[t.len() - 1]);
        assert((c as u32) < 128);
        assert(!is_upper(c));
        assert(ascii_lower(c) == c);
        lemma_snake_case_keeps_lower_ascii(t.drop_last());
        assert(t.drop_last().push(c) == t);
    }
}

/// The snake_case of ASCII text is ASCII.
pub proof fn lemma_snake_case_keeps_ascii(s: Seq<char>)
    requires
        is_ascii_text(s),
    ensures
        is_ascii_text(snake_case(s)),
    decreases s.len(),
{
    if s.len() > 0 {
        lemma_snake_case_keeps_ascii(s.drop_last());
        let prev = snake_case(s.drop_last());
        let c = s.last();
        assert(c == s[s.len() - 1]);
        assert((c as u32) < 128);
        assert((ascii_lower(c) as u32) < 128);
        let sep = if s.len() > 1 && is_upper(c) {
            prev.push('_')
        } else {
            prev
        };
        assert(is_ascii_text(sep)) by {
            assert forall|i: int| 0 <= i < sep.len() implies (#[trigger] sep[i] as u32) < 128 by {
                if i < prev.len() {
                    assert(sep[i] == prev[i]);
                }
            }
        }
        let out = sep.push(ascii_lower(c));
        assert(snake_case(s) == out);
        assert forall|i: int| 0 <= i < out.len() implies (#[trigger] out[i] as u32) < 128 by {
            if i < sep.len() {
                assert(out[i] == sep[i]);
            }
        }
    }
}

/// On ASCII text, converting to snake_case twice gives what converting once gives.
pub proof fn lemma_snake_case_idempotent_on_ascii(s: Seq<char>)
    requires
        is_ascii_text(s),
    ensures
        snake_case(snake_case(s)) == snake_case(s),
{
    lemma_snake_case_keeps_ascii(s);
    lemma_snake_case_has_no_ascii_upper(s);
    lemma_snake_case_keeps_lower_ascii(snake_case(s));
}

/// snake_case starts with the first character in ASCII lower case, with no `'_'` before it.
pub proof fn lemma_snake_case_first_char(c: char)
    requires
        (c as u32) < 128,
    ensures
        'A' <= c && c <= 'Z' ==> snake_case(seq![c]) == seq![((c as int) + 32) as char],
        !('A' <= c && c <= 'Z') ==> snake_case(seq![c]) == seq![c],
{
    assert(seq![c].drop_last() == Seq::<char>::empty());
    assert(seq![c].last() == c);
    assert(snake_case(Seq::<char>::empty()) == Seq::<char>::empty());
    assert(Seq::<char>::empty().push(ascii_lower(c)) == seq![ascii_lower(c)]);
}

/// After the first character, an upper-case ASCII letter starts a new word: snake_case
/// writes `'_'` and then the letter in lower case, whatever comes before it.
pub proof fn lemma_snake_case_splits_before_upper(a: Seq<char>, u: char)
    requires
        a.len() > 0,
        'A' <= u && u <= 'Z',
    ensures
        snake_case(a.push(u)) == snake_case(a) + seq!['_', ((u as int) + 32) as char],
{
    let s = a.push(u);
    assert(s.drop_last() == a);
    assert(s.last() == u);
    assert((u as u32) < 128);
    assert(is_upper(u));
    assert(snake_case(a).push('_').push(ascii_lower(u)) =~= snake_case(a) + seq![
        '_',
        ((u as int) + 32) as char,
    ]);
}

/// After the first character, an ASCII character that is no upper-case letter is
/// written as it is, with nothing before it.
pub proof fn lemma_snake_case_keeps_other_ascii(a: Seq<char>, c: char)
    requires
        a.len() > 0,
        (c as u32) < 128,
        !('A' <= c && c <= 'Z'),
    ensures
        snake_case(a.push(c)) == snake_case(a).push(c),
{
    let s = a.push(c);
    assert(s.drop_last() == a);
    assert(s.last() == c);
    assert(!is_upper(c));
}

} // verus!
