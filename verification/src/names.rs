//! Canonical type-name processing for the introspection output.
//!
//! A fully qualified name such as `a::b::Core<T>` is reduced to its core
//! name, split into path segments, and rendered as a single snake-cased,
//! capitalized identifier — the polymorphic-variant spelling the generated
//! bindings use.  The exact textual conventions are this module's own; each
//! function's contract states its transformation character by character.

use vstd::prelude::*;

use crate::keys::TypeExpr;
use crate::registry::Registry;
use crate::text::{
    is_word_char, is_word_char_exec, lower_char, push_char, to_lower_char, to_upper_char,
    upper_char,
};

verus! {

/// The end of the run of word characters starting at `i`.
pub open spec fn word_run_end(s: Seq<char>, i: int) -> int
    recommends
        0 <= i <= s.len(),
    decreases s.len() - i,
    when 0 <= i <= s.len()
{
    if i < s.len() && is_word_char(s[i]) {
        word_run_end(s, i + 1)
    } else {
        i
    }
}

proof fn lemma_word_run_end(s: Seq<char>, i: int)
    requires
        0 <= i <= s.len(),
    ensures
        i <= word_run_end(s, i) <= s.len(),
    decreases s.len() - i,
{
    if i < s.len() && is_word_char(s[i]) {
        lemma_word_run_end(s, i + 1);
    }
}

/// The end of the run of word characters starting at `i`, computed.
fn word_run_end_exec(s: &str, i: usize) -> (e: usize)
    requires
        i <= s@.len(),
    ensures
        e == word_run_end(s@, i as int),
{
    let n = s.unicode_len();
    let mut e = i;
    while e < n && is_word_char_exec(s.get_char(e))
        invariant
            i <= e <= n,
            n == s@.len(),
            word_run_end(s@, i as int) == word_run_end(s@, e as int),
        decreases n - e,
    {
        proof {
            assert(word_run_end(s@, e as int) == word_run_end(s@, e as int + 1));
        }
        e += 1;
    }
    proof {
        assert(word_run_end(s@, e as int) == e);
    }
    e
}

/// Whether the core-name pattern matches at `i`: a path separator `::`
/// followed by at least one word character, with the run ending at the end
/// of the name or at a `<`.
pub open spec fn colon_match(s: Seq<char>, i: int) -> bool {
    0 <= i && i + 2 <= s.len() && s[i] == ':' && s[i + 1] == ':' && word_run_end(s, i + 2) > i + 2
        && (word_run_end(s, i + 2) == s.len() || s[word_run_end(s, i + 2)] == '<')
}

/// The first position at or after `i` where the core-name pattern matches;
/// the length of `s` when it matches nowhere.
pub open spec fn first_colon_match(s: Seq<char>, i: int) -> int
    recommends
        0 <= i <= s.len(),
    decreases s.len() - i,
    when 0 <= i <= s.len()
{
    if i + 2 > s.len() {
        s.len() as int
    } else if colon_match(s, i) {
        i
    } else {
        first_colon_match(s, i + 1)
    }
}

proof fn lemma_first_colon_match(s: Seq<char>, i: int)
    requires
        0 <= i <= s.len(),
    ensures
        i <= first_colon_match(s, i) <= s.len(),
        first_colon_match(s, i) < s.len() ==> colon_match(s, first_colon_match(s, i)),
        forall|j: int| i <= j < first_colon_match(s, i) ==> !colon_match(s, j),
        first_colon_match(s, i) == s.len() ==> forall|j: int| j >= i ==> !colon_match(s, j),
    decreases s.len() - i,
{
    if i + 2 > s.len() {
        assert forall|j: int| j >= i implies !colon_match(s, j) by {
            if colon_match(s, j) {
                lemma_word_run_end(s, j + 2);
            }
        }
    } else if colon_match(s, i) {
    } else {
        lemma_first_colon_match(s, i + 1);
    }
}

/// The suffix of `s` after its last `:`; all of `s` when it has none.
pub open spec fn after_last_colon(s: Seq<char>) -> Seq<char>
    decreases s.len(),
{
    if s.len() == 0 {
        s
    } else if s.last() == ':' {
        Seq::<char>::empty()
    } else {
        after_last_colon(s.drop_last()).push(s.last())
    }
}

proof fn lemma_after_last_colon_at(s: Seq<char>, j: int)
    requires
        0 <= j < s.len(),
        s[j] == ':',
        forall|k: int| j < k < s.len() ==> s[k] != ':',
    ensures
        after_last_colon(s) == s.subrange(j + 1, s.len() as int),
    decreases s.len(),
{
    if j == s.len() - 1 {
        assert(after_last_colon(s) =~= s.subrange(j + 1, s.len() as int));
    } else {
        lemma_after_last_colon_at(s.drop_last(), j);
        assert(after_last_colon(s) == after_last_colon(s.drop_last()).push(s.last()));
        assert(after_last_colon(s) =~= s.subrange(j + 1, s.len() as int));
    }
}

proof fn lemma_after_last_colon_none(s: Seq<char>)
    requires
        forall|k: int| 0 <= k < s.len() ==> s[k] != ':',
    ensures
        after_last_colon(s) == s,
    decreases s.len(),
{
    if s.len() > 0 {
        lemma_after_last_colon_none(s.drop_last());
        assert(after_last_colon(s) =~= s);
    }
}

/// The core name of a fully qualified type name: the last path segment
/// before a generic-argument list or the end — the capture of the core-name
/// pattern at its first match — or, when the pattern never matches, whatever
/// follows the last `:`.
pub open spec fn extract_spec(s: Seq<char>) -> Seq<char> {
    let f = first_colon_match(s, 0);
    if f < s.len() {
        s.subrange(f + 2, word_run_end(s, f + 2))
    } else {
        after_last_colon(s)
    }
}

/// The core type name of `type_str`.
pub fn extract_type_name(type_str: &str) -> (r: String)
    ensures
        r@ == extract_spec(type_str@),
{
    let n = type_str.unicode_len();
    let mut i: usize = 0;
    while n >= 2 && i <= n - 2
        invariant
            0 <= i <= n,
            n == type_str@.len(),
            forall|j: int| 0 <= j < i ==> !colon_match(type_str@, j),
        decreases n - i,
    {
        if type_str.get_char(i) == ':' && type_str.get_char(i + 1) == ':' {
            let e = word_run_end_exec(type_str, i + 2);
            proof {
                lemma_word_run_end(type_str@, i as int + 2);
            }
            if e > i + 2 && (e == n || type_str.get_char(e) == '<') {
                proof {
                    assert(colon_match(type_str@, i as int));
                    lemma_first_colon_match(type_str@, 0);
                    assert(first_colon_match(type_str@, 0) == i as int) by {
                        let f = first_colon_match(type_str@, 0);
                        if f < i {
                            assert(!colon_match(type_str@, f));
                        }
                        if f > i {
                            assert(!colon_match(type_str@, i as int));
                        }
                    }
                }
                let sub = type_str.substring_char(i + 2, e);
                return sub.to_owned();
            }
            proof {
                assert(!colon_match(type_str@, i as int));
            }
        } else {
            proof {
                assert(!colon_match(type_str@, i as int));
            }
        }
        i += 1;
    }
    proof {
        assert forall|j: int| !colon_match(type_str@, j) by {
            if 0 <= j && j + 2 <= n {
            } else {
                if colon_match(type_str@, j) {
                    lemma_word_run_end(type_str@, j + 2);
                }
            }
        }
        lemma_first_colon_match(type_str@, 0);
        assert(first_colon_match(type_str@, 0) == n);
    }
    // No match: fall back to whatever follows the last path separator.
    let mut last_colon: usize = 0;
    let mut found = false;
    let mut k: usize = 0;
    while k < n
        invariant
            0 <= k <= n,
            n == type_str@.len(),
            found ==> last_colon < k && type_str@[last_colon as int] == ':' && forall|q: int|
                last_colon < q < k ==> type_str@[q] != ':',
            !found ==> forall|q: int| 0 <= q < k ==> type_str@[q] != ':',
        decreases n - k,
    {
        if type_str.get_char(k) == ':' {
            last_colon = k;
            found = true;
        }
        k += 1;
    }
    if found {
        proof {
            lemma_after_last_colon_at(type_str@, last_colon as int);
        }
        let sub = type_str.substring_char(last_colon + 1, n);
        sub.to_owned()
    } else {
        proof {
            lemma_after_last_colon_none(type_str@);
        }
        type_str.to_owned()
    }
}

/// A character that separates path segments and generic arguments.
pub open spec fn is_sep(c: char) -> bool {
    c == ':' || c == '<'
}

/// Whether `c` separates path segments and generic arguments.
pub fn is_sep_exec(c: char) -> (r: bool)
    ensures
        r == is_sep(c),
{
    c == ':' || c == '<'
}

/// The end of the run of non-separator characters starting at `i`.
pub open spec fn nonsep_run_end(s: Seq<char>, i: int) -> int
    recommends
        0 <= i <= s.len(),
    decreases s.len() - i,
    when 0 <= i <= s.len()
{
    if i < s.len() && !is_sep(s[i]) {
        nonsep_run_end(s, i + 1)
    } else {
        i
    }
}

proof fn lemma_nonsep_run_end(s: Seq<char>, i: int)
    requires
        0 <= i <= s.len(),
    ensures
        i <= nonsep_run_end(s, i) <= s.len(),
        i < s.len() && !is_sep(s[i]) ==> nonsep_run_end(s, i) > i,
    decreases s.len() - i,
{
    if i < s.len() && !is_sep(s[i]) {
        lemma_nonsep_run_end(s, i + 1);
    }
}

/// The maximal runs of non-separator characters at or after `i`, in order.
pub open spec fn tokens_from(s: Seq<char>, i: int) -> Seq<Seq<char>>
    recommends
        0 <= i <= s.len(),
    decreases s.len() - i,
    when 0 <= i <= s.len()
{
    if i >= s.len() {
        Seq::<Seq<char>>::empty()
    } else if is_sep(s[i]) {
        tokens_from(s, i + 1)
    } else {
        let e = nonsep_run_end(s, i);
        let step = if i < e && e <= s.len() {
            e
        } else {
            i + 1
        };
        seq![s.subrange(i, e)] + tokens_from(s, step)
    }
}

/// The position of the first of `ts` equal to `core`; the last position
/// when none is.
pub open spec fn token_index(ts: Seq<Seq<char>>, core: Seq<char>, i: int) -> int
    recommends
        0 <= i <= ts.len(),
    decreases ts.len() - i,
    when 0 <= i <= ts.len()
{
    if i >= ts.len() {
        ts.len() - 1
    } else if ts[i] == core {
        i
    } else {
        token_index(ts, core, i + 1)
    }
}

/// The path segments of a fully qualified name, up to and including its core
/// name: the name is split at separators, and the segments after the one
/// equal to the core name are dropped — all of them are kept when none is
/// equal to it.
pub open spec fn segments_spec(s: Seq<char>) -> Seq<Seq<char>> {
    let ts = tokens_from(s, 0);
    ts.take(token_index(ts, extract_spec(s), 0) + 1)
}

/// The end of the run of non-separator characters starting at `i`, computed.
fn nonsep_run_end_exec(s: &str, i: usize) -> (e: usize)
    requires
        i <= s@.len(),
    ensures
        e == nonsep_run_end(s@, i as int),
{
    let n = s.unicode_len();
    let mut e = i;
    while e < n && !is_sep_exec(s.get_char(e))
        invariant
            i <= e <= n,
            n == s@.len(),
            nonsep_run_end(s@, i as int) == nonsep_run_end(s@, e as int),
        decreases n - e,
    {
        proof {
            assert(nonsep_run_end(s@, e as int) == nonsep_run_end(s@, e as int + 1));
        }
        e += 1;
    }
    proof {
        assert(nonsep_run_end(s@, e as int) == e);
    }
    e
}

/// Splits a fully qualified name at separators and keeps the segments up to
/// and including its core name.
pub fn capture_segments(type_str: &str) -> (r: Vec<String>)
    requires
        tokens_from(type_str@, 0).len() >= 1,
    ensures
        r.deep_view() == segments_spec(type_str@),
{
    let n = type_str.unicode_len();
    let mut toks: Vec<String> = Vec::new();
    let mut p: usize = 0;
    while p < n
        invariant
            0 <= p <= n,
            n == type_str@.len(),
            tokens_from(type_str@, 0) =~~= toks.deep_view() + tokens_from(type_str@, p as int),
        decreases n - p,
    {
        if is_sep_exec(type_str.get_char(p)) {
            p += 1;
        } else {
            let e = nonsep_run_end_exec(type_str, p);
            proof {
                lemma_nonsep_run_end(type_str@, p as int);
            }
            let sub = type_str.substring_char(p, e);
            let ghost before = toks.deep_view();
            toks.push(sub.to_owned());
            proof {
                assert forall|j: int| 0 <= j < toks@.len() implies toks.deep_view()[j] == (if j
                    < before.len() {
                    before[j]
                } else {
                    type_str@.subrange(p as int, e as int)
                }) by {
                    assert(toks.deep_view()[j] == toks@[j].deep_view());
                    if j < before.len() {
                        assert(toks@[j].deep_view() == before[j]);
                    }
                }
                assert(toks.deep_view() =~~= before + seq![
                    type_str@.subrange(p as int, e as int),
                ]);
            }
            p = e;
        }
    }
    proof {
        assert(tokens_from(type_str@, 0) =~~= toks.deep_view());
    }
    let core = extract_type_name(type_str);
    let mut idx: usize = 0;
    let mut found = false;
    while idx < toks.len() && !found
        invariant
            0 <= idx <= toks@.len(),
            found ==> idx < toks@.len() && toks.deep_view()[idx as int] == core@,
            !found ==> forall|j: int| 0 <= j < idx ==> toks.deep_view()[j] != core@,
            found ==> forall|j: int| 0 <= j < idx ==> toks.deep_view()[j] != core@,
        decreases toks@.len() - idx + (if found { 0int } else { 1int }),
    {
        if toks[idx].eq(&core) {
            found = true;
        } else {
            proof {
                assert(toks.deep_view()[idx as int] != core@);
            }
            idx += 1;
        }
    }
    proof {
        lemma_token_index(toks.deep_view(), core@, 0);
        if found {
            assert(token_index(toks.deep_view(), core@, 0) == idx as int) by {
                let f = token_index(toks.deep_view(), core@, 0);
                if f < idx {
                    assert(toks.deep_view()[f] != core@);
                }
                if f > idx {
                    assert(toks.deep_view()[idx as int] != core@);
                }
            }
        } else {
            assert(token_index(toks.deep_view(), core@, 0) == toks.deep_view().len() - 1);
        }
    }
    let keep = if found {
        idx + 1
    } else {
        toks.len()
    };
    let mut r: Vec<String> = Vec::new();
    let mut j: usize = 0;
    while j < keep
        invariant
            0 <= j <= keep,
            keep <= toks@.len(),
            r@.len() == j,
            forall|q: int| 0 <= q < j ==> r.deep_view()[q] == toks.deep_view()[q],
        decreases keep - j,
    {
        let s = toks[j].clone();
        proof {
            assert(s == toks@[j as int]);
        }
        let ghost before = r.deep_view();
        r.push(s);
        proof {
            assert forall|q: int| 0 <= q < j + 1 implies r.deep_view()[q] == toks.deep_view()[
                q
            ] by {
                assert(r.deep_view()[q] == r@[q].deep_view());
                if q < before.len() {
                    assert(r@[q].deep_view() == before[q]);
                }
            }
        }
        j += 1;
    }
    proof {
        assert(r.deep_view() =~~= segments_spec(type_str@));
    }
    r
}

proof fn lemma_token_index(ts: Seq<Seq<char>>, core: Seq<char>, i: int)
    requires
        0 <= i <= ts.len(),
    ensures
        token_index(ts, core, i) < ts.len(),
        i <= token_index(ts, core, i) || token_index(ts, core, i) == ts.len() - 1,
        (exists|j: int| i <= j < ts.len() && ts[j] == core) ==> i <= token_index(ts, core, i)
            && ts[token_index(ts, core, i)] == core && forall|j: int|
            i <= j < token_index(ts, core, i) ==> ts[j] != core,
        !(exists|j: int| i <= j < ts.len() && ts[j] == core) ==> token_index(ts, core, i)
            == ts.len() - 1,
    decreases ts.len() - i,
{
    if i >= ts.len() {
    } else if ts[i] == core {
    } else {
        lemma_token_index(ts, core, i + 1);
    }
}

/// One segment rendered in snake case: each upper-case letter is lowered,
/// and — except at the very start — preceded by an underscore.
pub open spec fn snake_spec(s: Seq<char>) -> Seq<char>
    decreases s.len(),
{
    if s.len() == 0 {
        s
    } else {
        let prefix = snake_spec(s.drop_last());
        let c = s.last();
        if s.len() > 1 && crate::text::is_ascii_upper(c) {
            prefix.push('_').push(lower_char(c))
        } else {
            prefix.push(lower_char(c))
        }
    }
}

/// Converts one path segment to snake case.
pub fn convert_to_snake_case(segment: &str) -> (r: String)
    ensures
        r@ == snake_spec(segment@),
{
    let n = segment.unicode_len();
    let mut out = String::new();
    let mut i: usize = 0;
    while i < n
        invariant
            0 <= i <= n,
            n == segment@.len(),
            out@ == snake_spec(segment@.take(i as int)),
        decreases n - i,
    {
        let c = segment.get_char(i);
        if i > 0 && crate::text::is_upper_char(c) {
            push_char(&mut out, '_');
        }
        push_char(&mut out, to_lower_char(c));
        proof {
            assert(segment@.take(i as int + 1).drop_last() =~= segment@.take(i as int));
            assert(segment@.take(i as int + 1).last() == segment@[i as int]);
        }
        i += 1;
    }
    proof {
        assert(segment@.take(n as int) =~= segment@);
    }
    out
}

/// A name with its first character upper-cased and the rest unchanged.
pub open spec fn capitalize_spec(s: Seq<char>) -> Seq<char> {
    if s.len() == 0 {
        s
    } else {
        seq![upper_char(s[0])] + s.subrange(1, s.len() as int)
    }
}

/// Capitalizes the first letter of `s`.
pub fn capitalize_first_letter(s: &str) -> (r: String)
    ensures
        r@ == capitalize_spec(s@),
{
    let n = s.unicode_len();
    if n == 0 {
        let r = String::new();
        proof {
            assert(r@ =~= capitalize_spec(s@));
        }
        r
    } else {
        let mut out = String::new();
        push_char(&mut out, to_upper_char(s.get_char(0)));
        let rest = s.substring_char(1, n);
        out.append(rest);
        proof {
            assert(out@ =~= capitalize_spec(s@));
        }
        out
    }
}

/// The given parts joined by `sep`.
pub open spec fn join_with(parts: Seq<Seq<char>>, sep: char) -> Seq<char>
    decreases parts.len(),
{
    if parts.len() == 0 {
        Seq::<char>::empty()
    } else if parts.len() == 1 {
        parts[0]
    } else {
        join_with(parts.drop_last(), sep).push(sep) + parts.last()
    }
}

/// The fully qualified name rendered as one snake-cased identifier with a
/// capitalized first letter: its segments up to the core name, each in snake
/// case, joined by underscores.
pub open spec fn snake_fq_spec(s: Seq<char>) -> Seq<char> {
    capitalize_spec(
        join_with(segments_spec(s).map_values(|t: Seq<char>| snake_spec(t)), '_'),
    )
}

/// Renders a fully qualified name as a single snake-cased, capitalized
/// identifier.
pub fn snake_case_of_fully_qualified_name(type_str: &str) -> (r: String)
    requires
        tokens_from(type_str@, 0).len() >= 1,
    ensures
        r@ == snake_fq_spec(type_str@),
{
    let segments = capture_segments(type_str);
    let ghost mapped = segments_spec(type_str@).map_values(|t: Seq<char>| snake_spec(t));
    let mut joined = String::new();
    let mut i: usize = 0;
    while i < segments.len()
        invariant
            0 <= i <= segments@.len(),
            segments.deep_view() == segments_spec(type_str@),
            mapped == segments_spec(type_str@).map_values(|t: Seq<char>| snake_spec(t)),
            joined@ == join_with(mapped.take(i as int), '_'),
        decreases segments@.len() - i,
    {
        let part = convert_to_snake_case(segments[i].as_str());
        proof {
            assert(segments@[i as int]@ == segments.deep_view()[i as int]);
            assert(mapped.take(i as int + 1).drop_last() =~= mapped.take(i as int));
            assert(mapped.take(i as int + 1).last() == mapped[i as int]);
        }
        if i > 0 {
            push_char(&mut joined, '_');
        }
        joined.append(part.as_str());
        proof {
            if i == 0 {
                assert(joined@ =~= join_with(mapped.take(1), '_'));
            } else {
                assert(joined@ =~= join_with(mapped.take(i as int + 1), '_'));
            }
        }
        i += 1;
    }
    proof {
        assert(mapped.take(mapped.len() as int) =~= mapped);
    }
    capitalize_first_letter(joined.as_str())
}

/// The core type name of a registered type, read from its type information.
pub fn get_type_name(registry: &Registry, ty: &TypeExpr) -> (r: String)
    requires
        registry.wf(),
        registry.infos().contains_key(ty@),
    ensures
        r@ == extract_spec(registry.infos()[ty@].fq_name),
{
    let info = registry.get_type_info(ty);
    extract_type_name(info.fq_name.as_str())
}

} // verus!
