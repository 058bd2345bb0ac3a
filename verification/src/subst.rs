//! Template substitution: `[[NAME]]` placeholders in a template are
//! replaced by the value bound to `NAME` in the variable store, or by the
//! empty string when `NAME` is unbound.  The scan is a single left-to-right
//! pass over the original text: freshly inserted values are never
//! re-scanned, so substitution terminates on every input.
use vstd::prelude::*;

use crate::varstore::VariableStore;

verus! {

/// The two characters `a` then `b` stand at position `k` of `s`.
pub open spec fn pair_at(s: Seq<char>, a: char, b: char, k: int) -> bool {
    s[k] == a && s[k + 1] == b
}

/// The position of the first occurrence of the two-character pattern
/// `a b` in `s`, if any.
pub open spec fn find2(s: Seq<char>, a: char, b: char) -> Option<int>
    decreases s.len(),
{
    if s.len() < 2 {
        None
    } else if s[0] == a && s[1] == b {
        Some(0)
    } else {
        match find2(s.drop_first(), a, b) {
            Some(i) => Some(i + 1),
            None => None,
        }
    }
}

/// `find2` returns the first matching position, and `None` exactly when
/// there is none.
pub proof fn lemma_find2_first(s: Seq<char>, a: char, b: char)
    ensures
        match find2(s, a, b) {
            Some(i) => 0 <= i && i + 2 <= s.len() && pair_at(s, a, b, i) && forall|k: int|
                0 <= k < i ==> !pair_at(s, a, b, k),
            None => forall|k: int| 0 <= k && k + 2 <= s.len() ==> !pair_at(s, a, b, k),
        },
    decreases s.len(),
{
    if s.len() < 2 {
    } else if s[0] == a && s[1] == b {
    } else {
        let t = s.drop_first();
        lemma_find2_first(t, a, b);
        assert(forall|k: int|
            0 <= k && k + 2 <= t.len() ==> #[trigger] t[k] == s[k + 1] && t[k + 1] == s[k + 2]);
        match find2(t, a, b) {
            Some(i) => {
                assert(pair_at(s, a, b, i + 1));
                assert forall|k: int| 0 <= k < i + 1 implies !pair_at(s, a, b, k) by {
                    if k > 0 {
                        assert(!pair_at(t, a, b, k - 1));
                    }
                }
            },
            None => {
                assert forall|k: int| 0 <= k && k + 2 <= s.len() implies !pair_at(s, a, b, k) by {
                    if k > 0 {
                        assert(!pair_at(t, a, b, k - 1));
                    }
                }
            },
        }
    }
}

/// What an outside percent-encoder returns for a string value.
pub uninterp spec fn percent_encoded(s: Seq<char>) -> Seq<char>;

/// Relies on `percent_encoding::percent_encode` over the `NON_ALPHANUMERIC`
/// set: the result is a function of the input characters alone.  ASCII
/// letters and digits pass through unchanged and every other byte of the
/// UTF-8 encoding becomes a three-character `%XX` escape, so the result
/// never contains a bracket character.
#[verifier::external_body]
fn percent_encode_value(value: &str) -> (r: String)
    ensures
        r@ == percent_encoded(value@),
        forall|i: int| 0 <= i < r@.len() ==> r@[i] != '[' && r@[i] != ']',
{
    percent_encoding::percent_encode(value.as_bytes(), percent_encoding::NON_ALPHANUMERIC)
        .to_string()
}

/// The replacement text for the placeholder name `name`: the stored value
/// (percent-encoded if `encode` is set), or empty when `name` is unbound.
pub open spec fn replacement_of(
    m: Map<Seq<char>, Seq<char>>,
    name: Seq<char>,
    encode: bool,
) -> Seq<char> {
    if m.contains_key(name) {
        if encode {
            percent_encoded(m[name])
        } else {
            m[name]
        }
    } else {
        Seq::empty()
    }
}

/// One left-to-right substitution pass: while the remaining text holds a
/// `[[` and a later `]]`, the part between them is treated as a placeholder
/// name and the whole token is replaced; the pass continues after the
/// closing bracket, never inside a freshly inserted value.  When the first
/// `]]` does not come after the first `[[`, the text is left as it is.
pub open spec fn subst_spec(m: Map<Seq<char>, Seq<char>>, text: Seq<char>, encode: bool) -> Seq<
    char,
>
    decreases text.len(),
{
    match (find2(text, '[', '['), find2(text, ']', ']')) {
        (Some(i), Some(j)) => {
            if 0 <= i && i < j && j + 2 <= text.len() {
                text.subrange(0, i) + replacement_of(m, text.subrange(i + 2, j), encode)
                    + subst_spec(m, text.subrange(j + 2, text.len() as int), encode)
            } else {
                text
            }
        },
        _ => text,
    }
}

/// The first position at or after `from` where `a b` stands in `v`.
fn find_pair(v: &Vec<char>, from: usize, a: char, b: char) -> (r: Option<usize>)
    requires
        from <= v@.len(),
    ensures
        match r {
            Some(i) => from <= i && i + 2 <= v@.len() && pair_at(v@, a, b, i as int) && forall|
                k: int,
            | from <= k < i as int ==> !pair_at(v@, a, b, k),
            None => forall|k: int| from <= k && k + 2 <= v@.len() ==> !pair_at(v@, a, b, k),
        },
{
    let n = v.len();
    if n < 2 {
        return None;
    }
    let mut i = from;
    while i <= n - 2
        invariant
            from <= i <= n,
            n == v@.len(),
            2 <= n,
            forall|k: int| from <= k < i as int ==> !pair_at(v@, a, b, k),
        decreases n - i,
    {
        if v[i] == a && v[i + 1] == b {
            return Some(i);
        }
        i = i + 1;
    }
    None
}

/// The characters of `s`, in order.
pub(crate) fn chars_of(s: &str) -> (r: Vec<char>)
    ensures
        r@ == s@,
{
    let mut out: Vec<char> = Vec::new();
    for c in it: s.chars()
        invariant
            it.seq() == s@,
            out@ =~= it.seq().subrange(0, it.index() as int),
    {
        out.push(c);
    }
    proof {
        assert(out@ =~= s@);
    }
    out
}

/// Collects a character vector back into a string.
/// Relies on `String::push`: pushing a character appends exactly that
/// character.
#[verifier::external_body]
fn string_of_chars(chars: &Vec<char>) -> (r: String)
    ensures
        r@ == chars@,
{
    let mut out = String::new();
    for c in chars.iter() {
        out.push(*c);
    }
    out
}

/// A copy of `v[a..b]`.
fn sub_vec(v: &Vec<char>, a: usize, b: usize) -> (r: Vec<char>)
    requires
        a <= b <= v@.len(),
    ensures
        r@ == v@.subrange(a as int, b as int),
{
    let mut out: Vec<char> = Vec::new();
    let mut k = a;
    while k < b
        invariant
            a <= k <= b <= v@.len(),
            out@ =~= v@.subrange(a as int, k as int),
        decreases b - k,
    {
        out.push(v[k]);
        k = k + 1;
        proof {
            assert(out@ =~= v@.subrange(a as int, k as int));
        }
    }
    out
}

/// Appends all of `v` to `out`.
fn push_all(out: &mut Vec<char>, v: &Vec<char>)
    ensures
        final(out)@ == old(out)@ + v@,
{
    let n = v.len();
    for k in 0..n
        invariant
            n == v@.len(),
            out@ =~= old(out)@ + v@.subrange(0, k as int),
    {
        out.push(v[k]);
    }
    proof {
        assert(old(out)@ + v@.subrange(0, n as int) =~= old(out)@ + v@);
    }
}

/// One substitution pass over a character vector.
fn swap_chars(storage_var: &VariableStore, text: &Vec<char>, encode: bool) -> (r: Vec<char>)
    ensures
        r@ == subst_spec(storage_var@, text@, encode),
    decreases text@.len(),
{
    let opens = find_pair(text, 0, '[', '[');
    let closes = find_pair(text, 0, ']', ']');
    proof {
        lemma_find2_first(text@, '[', '[');
        lemma_find2_first(text@, ']', ']');
    }
    match (opens, closes) {
        (Some(i), Some(j)) => {
            proof {
                // Both scans found the first occurrence, so they agree with `find2`.
                match find2(text@, '[', '[') {
                    Some(fi) => {
                        if fi < i as int {
                            assert(!pair_at(text@, '[', '[', fi));
                        }
                        if (i as int) < fi {
                            assert(!pair_at(text@, '[', '[', i as int));
                        }
                    },
                    None => {
                        assert(!pair_at(text@, '[', '[', i as int));
                    },
                }
                match find2(text@, ']', ']') {
                    Some(fj) => {
                        if fj < j as int {
                            assert(!pair_at(text@, ']', ']', fj));
                        }
                        if (j as int) < fj {
                            assert(!pair_at(text@, ']', ']', j as int));
                        }
                    },
                    None => {
                        assert(!pair_at(text@, ']', ']', j as int));
                    },
                }
                assert(find2(text@, '[', '[') == Some(i as int));
                assert(find2(text@, ']', ']') == Some(j as int));
            }
            if i < j {
                // The closing pair cannot start right after the opening
                // bracket pair, so the name slice below is well formed.
                assert(i + 2 <= j) by {
                    assert(text@[i + 1] == '[');
                }
                let name_chars = sub_vec(text, i + 2, j);
                let name = string_of_chars(&name_chars);
                let rep: Vec<char> = match storage_var.get(name.as_str()) {
                    Some(value) => {
                        if encode {
                            chars_of(percent_encode_value(value.as_str()).as_str())
                        } else {
                            chars_of(value.as_str())
                        }
                    },
                    None => Vec::new(),
                };
                proof {
                    assert(text.len() == text@.len());
                    assert(j as int + 2 <= text@.len());
                }
                let rest = sub_vec(text, j + 2, text.len());
                let rest_done = swap_chars(storage_var, &rest, encode);
                let mut out = sub_vec(text, 0, i);
                push_all(&mut out, &rep);
                push_all(&mut out, &rest_done);
                proof {
                    assert(rep@ == replacement_of(storage_var@, text@.subrange(i + 2, j as int), encode));
                    assert(out@ == subst_spec(storage_var@, text@, encode));
                }
                out
            } else {
                sub_vec(text, 0, text.len())
            }
        },
        _ => {
            sub_vec(text, 0, text.len())
        },
    }
}

/// `s` holds no bracket character.
pub open spec fn bracket_free(s: Seq<char>) -> bool {
    forall|i: int| 0 <= i < s.len() ==> s[i] != '[' && s[i] != ']'
}

/// Every value of the store is free of bracket characters.
pub open spec fn store_bracket_free(m: Map<Seq<char>, Seq<char>>) -> bool {
    forall|name: Seq<char>| m.contains_key(name) ==> bracket_free(#[trigger] m[name])
}

/// The substitution pass would still find a token in `s`.
pub open spec fn has_token(s: Seq<char>) -> bool {
    match (find2(s, '[', '['), find2(s, ']', ']')) {
        (Some(i), Some(j)) => 0 <= i && i < j && j + 2 <= s.len(),
        _ => false,
    }
}

/// The resolution law: when no replacement text contains a bracket, one
/// substitution pass resolves every token, so the result holds no further
/// token and a second pass returns it unchanged.
pub proof fn lemma_substitution_resolves(
    m: Map<Seq<char>, Seq<char>>,
    text: Seq<char>,
    encode: bool,
)
    requires
        forall|name: Seq<char>|
            m.contains_key(name) ==> bracket_free(#[trigger] replacement_of(m, name, encode)),
    ensures
        !has_token(subst_spec(m, text, encode)),
        subst_spec(m, subst_spec(m, text, encode), encode) == subst_spec(m, text, encode),
    decreases text.len(),
{
    lemma_find2_first(text, '[', '[');
    lemma_find2_first(text, ']', ']');
    match (find2(text, '[', '['), find2(text, ']', ']')) {
        (Some(i), Some(j)) => {
            if 0 <= i && i < j && j + 2 <= text.len() {
                let p = text.subrange(0, i);
                let name = text.subrange(i + 2, j);
                let rep = replacement_of(m, name, encode);
                let rest = text.subrange(j + 2, text.len() as int);
                lemma_substitution_resolves(m, rest, encode);
                let tail = subst_spec(m, rest, encode);
                let r = p + rep + tail;
                assert(subst_spec(m, text, encode) == r);
                assert(bracket_free(rep));
                let off = p.len() + rep.len() as int;
                // The prefix copies the text before the first `[[`, so it
                // holds no bracket pair, and its last character is not `[`.
                assert(forall|k: int| 0 <= k < i ==> !pair_at(text, '[', '[', k));
                assert(forall|k: int| 0 <= k < j ==> !pair_at(text, ']', ']', k));
                assert(text[i] == '[' && text[i + 1] == '[');
                if i > 0 && text[i - 1] == '[' {
                    assert(pair_at(text, '[', '[', i - 1));
                    assert(false);
                }
                // No `[[` starts before the tail region of the result.
                assert forall|k: int| 0 <= k < off implies !((#[trigger] r[k]) == '[' && r[k + 1]
                    == '[') by {
                    if k < p.len() {
                        assert(r[k] == text[k]);
                        if k + 1 < p.len() {
                            assert(r[k + 1] == text[k + 1]);
                            assert(!pair_at(text, '[', '[', k));
                        } else {
                            // k is the last prefix position: text[i - 1] != '['
                        }
                    } else {
                        assert(r[k] == rep[k - p.len()]);
                    }
                }
                // A `]]` before the tail region can only sit at the very
                // end of the prefix (when the replacement is empty).
                assert forall|k: int|
                    0 <= k < off && k + 1 != p.len() implies !((#[trigger] r[k]) == ']' && r[k + 1]
                    == ']') by {
                    if k < p.len() {
                        assert(r[k] == text[k]);
                        if k + 1 < p.len() {
                            assert(r[k + 1] == text[k + 1]);
                            assert(!pair_at(text, ']', ']', k));
                        }
                    } else {
                        assert(r[k] == rep[k - p.len()]);
                    }
                }
                lemma_find2_first(r, '[', '[');
                lemma_find2_first(r, ']', ']');
                lemma_find2_first(tail, '[', '[');
                lemma_find2_first(tail, ']', ']');
                match (find2(r, '[', '['), find2(r, ']', ']')) {
                    (Some(a), Some(b)) => {
                        if 0 <= a && a < b && b + 2 <= r.len() {
                            // Any token the pass would still find lies in
                            // the tail, which the recursive call already
                            // resolved: contradiction.
                            assert(pair_at(r, '[', '[', a) && pair_at(r, ']', ']', b));
                            assert(a >= off);
                            assert(b > a >= off);
                            let a2 = a - off;
                            let b2 = b - off;
                            assert(tail[a2] == r[a] && tail[a2 + 1] == r[a + 1]);
                            assert(tail[b2] == r[b] && tail[b2 + 1] == r[b + 1]);
                            assert(pair_at(tail, '[', '[', a2));
                            assert(pair_at(tail, ']', ']', b2));
                            match find2(tail, '[', '[') {
                                Some(a3) => {
                                    if a3 < a2 {
                                        assert(pair_at(tail, '[', '[', a3));
                                        assert(r[off + a3] == tail[a3]);
                                        assert(r[off + a3 + 1] == tail[a3 + 1]);
                                        assert(pair_at(r, '[', '[', off + a3));
                                        assert(false);
                                    }
                                    match find2(tail, ']', ']') {
                                        Some(b3) => {
                                            if b3 < b2 {
                                                assert(pair_at(tail, ']', ']', b3));
                                                assert(r[off + b3] == tail[b3] && r[off + b3 + 1]
                                                    == tail[b3 + 1]);
                                                assert(pair_at(r, ']', ']', off + b3));
                                                assert(false);
                                            }
                                            assert(a3 <= a2 < b2 <= b3);
                                            assert(has_token(tail));
                                            assert(false);
                                        },
                                        None => {
                                            assert(!pair_at(tail, ']', ']', b2));
                                            assert(false);
                                        },
                                    }
                                },
                                None => {
                                    assert(!pair_at(tail, '[', '[', a2));
                                    assert(false);
                                },
                            }
                        }
                    },
                    _ => {},
                }
            }
        },
        _ => {},
    }
}

/// The resolution law specialized to unencoded substitution: when every
/// stored value is free of bracket characters, one pass leaves no token
/// behind.
pub proof fn lemma_substitution_resolves_plain(m: Map<Seq<char>, Seq<char>>, text: Seq<char>)
    requires
        store_bracket_free(m),
    ensures
        !has_token(subst_spec(m, text, false)),
        subst_spec(m, subst_spec(m, text, false), false) == subst_spec(m, text, false),
{
    assert forall|name: Seq<char>| m.contains_key(name) implies bracket_free(
        #[trigger] replacement_of(m, name, false),
    ) by {
        assert(replacement_of(m, name, false) == m[name]);
    }
    lemma_substitution_resolves(m, text, false);
}

/// Replaces every `[[NAME]]` token of `text` by the stored value of `NAME`
/// (percent-encoded when `encode` is set) or by the empty string when
/// `NAME` is unbound, in one left-to-right pass.
pub fn swap_variable(storage_var: &VariableStore, text: &str, encode: bool) -> (r: String)
    ensures
        r@ == subst_spec(storage_var@, text@, encode),
{
    let chars = chars_of(text);
    let swapped = swap_chars(storage_var, &chars, encode);
    string_of_chars(&swapped)
}

} // verus!
