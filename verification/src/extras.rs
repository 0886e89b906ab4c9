//! Helpers for composing generated binding text.
//!
//! The declaration text itself is written by the surrounding tooling; what
//! lives here is the exact string logic that text depends on: rendering
//! type-parameter lists, splicing a parameter list into a generated type
//! declaration, spelling the polymorphic-variant tags of a type's
//! implemented interfaces, and naming the per-crate output file.

use vstd::prelude::*;

use crate::names::{join_with, snake_fq_spec, snake_case_of_fully_qualified_name, tokens_from};
use crate::text::{match_at, push_char};

verus! {

/// The rendering of a type-parameter list, tied to the concrete parameter
/// structs below.
pub trait TypeParams {
    /// The rendered parameter list.
    spec fn spec_params(&self) -> Seq<char>;

    /// How many parameters the list has.
    spec fn spec_count(&self) -> int;

    /// Renders the parameter list.
    fn params_string(&self) -> (r: String)
        ensures
            r@ == self.spec_params(),
    ;

    /// The number of parameters.
    fn params_count(&self) -> (r: usize)
        ensures
            r as int == self.spec_count(),
    ;
}

/// One type parameter, rendered `'x` for the held letter.
pub struct P1 {
    pub c: char,
}

impl TypeParams for P1 {
    open spec fn spec_params(&self) -> Seq<char> {
        seq!['\'', self.c]
    }

    open spec fn spec_count(&self) -> int {
        1
    }

    fn params_string(&self) -> (r: String) {
        let mut r = String::new();
        push_char(&mut r, '\'');
        push_char(&mut r, self.c);
        proof {
            assert(r@ =~= self.spec_params());
        }
        r
    }

    fn params_count(&self) -> (r: usize) {
        1
    }
}

/// Two type parameters, rendered `('x, 'y)`.
pub struct P2 {
    pub c1: char,
    pub c2: char,
}

impl TypeParams for P2 {
    open spec fn spec_params(&self) -> Seq<char> {
        seq!['(', '\'', self.c1, ',', ' ', '\'', self.c2, ')']
    }

    open spec fn spec_count(&self) -> int {
        2
    }

    fn params_string(&self) -> (r: String) {
        let mut r = String::new();
        push_char(&mut r, '(');
        push_char(&mut r, '\'');
        push_char(&mut r, self.c1);
        push_char(&mut r, ',');
        push_char(&mut r, ' ');
        push_char(&mut r, '\'');
        push_char(&mut r, self.c2);
        push_char(&mut r, ')');
        proof {
            assert(r@ =~= self.spec_params());
        }
        r
    }

    fn params_count(&self) -> (r: usize) {
        2
    }
}

/// Three type parameters, rendered `('x, 'y, 'z)`.
pub struct P3 {
    pub c1: char,
    pub c2: char,
    pub c3: char,
}

impl TypeParams for P3 {
    open spec fn spec_params(&self) -> Seq<char> {
        seq!['(', '\'', self.c1, ',', ' ', '\'', self.c2, ',', ' ', '\'', self.c3, ')']
    }

    open spec fn spec_count(&self) -> int {
        3
    }

    fn params_string(&self) -> (r: String) {
        let mut r = String::new();
        push_char(&mut r, '(');
        push_char(&mut r, '\'');
        push_char(&mut r, self.c1);
        push_char(&mut r, ',');
        push_char(&mut r, ' ');
        push_char(&mut r, '\'');
        push_char(&mut r, self.c2);
        push_char(&mut r, ',');
        push_char(&mut r, ' ');
        push_char(&mut r, '\'');
        push_char(&mut r, self.c3);
        push_char(&mut r, ')');
        proof {
            assert(r@ =~= self.spec_params());
        }
        r
    }

    fn params_count(&self) -> (r: usize) {
        3
    }
}

/// Splices a type-parameter list into a generated type declaration: the
/// parameters and a space are inserted right after the first `type nonrec `
/// marker.  A declaration without that marker is reported, with the same
/// message the generator shows.
pub fn insert_type_params(input_string: &str, type_params: &str) -> (r: Result<
    String,
    &'static str,
>)
    ensures
        match r {
            Result::Ok(out) => exists|j: int|
                {
                    &&& #[trigger] match_at(input_string@, "type nonrec "@, j)
                    &&& (forall|q: int| 0 <= q < j ==> !match_at(input_string@, "type nonrec "@, q))
                    &&& out@ == input_string@.subrange(0, j + 12) + type_params@ + seq![' ']
                        + input_string@.subrange(j + 12, input_string@.len() as int)
                },
            Result::Err(m) => (forall|j: int| !match_at(input_string@, "type nonrec "@, j)) && m@
                == "Could not find 'type nonrec' in the input string"@,
        },
{
    let marker = "type nonrec ";
    proof {
        reveal_strlit("type nonrec ");
    }
    match crate::text::find_substr(input_string, marker) {
        Option::Some(type_index) => {
            let n = input_string.unicode_len();
            proof {
                assert(match_at(input_string@, "type nonrec "@, type_index as int));
                assert("type nonrec "@.len() == 12);
                assert(type_index + 12 <= input_string@.len());
            }
            let insert_index = type_index + 12;
            let head = input_string.substring_char(0, insert_index);
            let tail = input_string.substring_char(insert_index, n);
            let mut result = head.to_owned();
            result.append(type_params);
            push_char(&mut result, ' ');
            result.append(tail);
            proof {
                assert(result@ =~= input_string@.subrange(0, type_index + 12) + type_params@
                    + seq![' '] + input_string@.subrange(
                    type_index + 12,
                    input_string@.len() as int,
                ));
            }
            Result::Ok(result)
        },
        Option::None => Result::Err("Could not find 'type nonrec' in the input string"),
    }
}

/// The polymorphic-variant tags of a type's implemented interfaces: each
/// name rendered as its snake-cased identifier behind a backtick, all joined
/// by `|`.
pub open spec fn tags_spec(names: Seq<Seq<char>>) -> Seq<char> {
    join_with(names.map_values(|n: Seq<char>| seq!['`'] + snake_fq_spec(n)), '|')
}

/// Renders the polymorphic-variant tag list of the given implemented
/// interfaces.
pub fn variant_tags(names: &Vec<String>) -> (r: String)
    requires
        forall|i: int|
            0 <= i < names@.len() ==> tokens_from(#[trigger] names.deep_view()[i], 0).len() >= 1,
    ensures
        r@ == tags_spec(names.deep_view()),
{
    let ghost mapped = names.deep_view().map_values(|n: Seq<char>| seq!['`'] + snake_fq_spec(n));
    let mut out = String::new();
    let mut i: usize = 0;
    while i < names.len()
        invariant
            0 <= i <= names@.len(),
            forall|k: int|
                0 <= k < names@.len() ==> tokens_from(
                    #[trigger] names.deep_view()[k],
                    0,
                ).len() >= 1,
            mapped == names.deep_view().map_values(|n: Seq<char>| seq!['`'] + snake_fq_spec(n)),
            out@ == join_with(mapped.take(i as int), '|'),
        decreases names@.len() - i,
    {
        proof {
            assert(names@[i as int]@ == names.deep_view()[i as int]);
            assert(mapped.take(i as int + 1).drop_last() =~= mapped.take(i as int));
            assert(mapped.take(i as int + 1).last() == mapped[i as int]);
        }
        let tag = snake_case_of_fully_qualified_name(names[i].as_str());
        if i > 0 {
            push_char(&mut out, '|');
        }
        push_char(&mut out, '`');
        out.append(tag.as_str());
        proof {
            if i == 0 {
                assert(out@ =~= join_with(mapped.take(1), '|'));
            } else {
                assert(out@ =~= join_with(mapped.take(i as int + 1), '|'));
            }
        }
        i += 1;
    }
    proof {
        assert(mapped.take(mapped.len() as int) =~= mapped);
    }
    out
}

/// The given parts joined by the separator string.
pub open spec fn join_sep(parts: Seq<Seq<char>>, sep: Seq<char>) -> Seq<char>
    decreases parts.len(),
{
    if parts.len() == 0 {
        Seq::<char>::empty()
    } else if parts.len() == 1 {
        parts[0]
    } else {
        join_sep(parts.drop_last(), sep) + sep + parts.last()
    }
}

/// The rendered signature of a callable: every argument description in its
/// own parentheses, joined by arrows, with the result description last.
pub open spec fn callable_desc_spec(args: Seq<Seq<char>>, ret: Seq<char>) -> Seq<char> {
    seq!['('] + join_sep(args.map_values(|d: Seq<char>| seq!['('] + d + seq![')']), " -> "@)
        + " -> ("@ + ret + "))"@
}

/// Renders the signature of a callable from the descriptions of its
/// arguments and of its result.
pub fn callable_desc(args: &Vec<String>, ret: &str) -> (r: String)
    ensures
        r@ == callable_desc_spec(args.deep_view(), ret@),
{
    let ghost mapped = args.deep_view().map_values(|d: Seq<char>| seq!['('] + d + seq![')']);
    let mut out = String::new();
    push_char(&mut out, '(');
    let mut i: usize = 0;
    while i < args.len()
        invariant
            0 <= i <= args@.len(),
            mapped == args.deep_view().map_values(
                |d: Seq<char>| seq!['('] + d + seq![')'],
            ),
            out@ == seq!['('] + join_sep(mapped.take(i as int), " -> "@),
        decreases args@.len() - i,
    {
        proof {
            assert(args@[i as int]@ == args.deep_view()[i as int]);
            assert(mapped.take(i as int + 1).drop_last() =~= mapped.take(i as int));
            assert(mapped.take(i as int + 1).last() == mapped[i as int]);
        }
        if i > 0 {
            out.append(" -> ");
        }
        push_char(&mut out, '(');
        out.append(args[i].as_str());
        push_char(&mut out, ')');
        proof {
            if i == 0 {
                assert(out@ =~= seq!['('] + join_sep(mapped.take(1), " -> "@));
            } else {
                assert(out@ =~= seq!['('] + join_sep(mapped.take(i as int + 1), " -> "@));
            }
        }
        i += 1;
    }
    proof {
        assert(mapped.take(mapped.len() as int) =~= mapped);
    }
    out.append(" -> (");
    out.append(ret);
    out.append("))");
    proof {
        assert(out@ =~= callable_desc_spec(args.deep_view(), ret@));
    }
    out
}

/// A crate name with dashes turned into underscores.
pub open spec fn replace_dash(s: Seq<char>) -> Seq<char> {
    s.map_values(
        |c: char|
            if c == '-' {
                '_'
            } else {
                c
            },
    )
}

/// The name of the generated bindings file for a crate: the crate's name
/// with dashes as underscores and the first letter capitalized, with the
/// `.ml` suffix.
pub open spec fn stubs_file_spec(crate_name: Seq<char>) -> Seq<char> {
    crate::names::capitalize_spec(replace_dash(crate_name)) + ".ml"@
}

/// The name of the generated bindings file for the given crate.
pub fn stubs_file_name(crate_name: &str) -> (r: String)
    ensures
        r@ == stubs_file_spec(crate_name@),
{
    let n = crate_name.unicode_len();
    let mut replaced = String::new();
    let mut i: usize = 0;
    while i < n
        invariant
            0 <= i <= n,
            n == crate_name@.len(),
            replaced@ =~= replace_dash(crate_name@.take(i as int)),
        decreases n - i,
    {
        let c = crate_name.get_char(i);
        if c == '-' {
            push_char(&mut replaced, '_');
        } else {
            push_char(&mut replaced, c);
        }
        proof {
            assert(replace_dash(crate_name@.take(i as int + 1)) =~= replace_dash(
                crate_name@.take(i as int),
            ).push(if crate_name@[i as int] == '-' {
                '_'
            } else {
                crate_name@[i as int]
            }));
        }
        i += 1;
    }
    proof {
        assert(crate_name@.take(n as int) =~= crate_name@);
        assert(replaced@ =~= replace_dash(crate_name@));
    }
    let mut out = crate::names::capitalize_first_letter(replaced.as_str());
    out.append(".ml");
    out
}

} // verus!
