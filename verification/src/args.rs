//! Construction of a transcoder's argument list from a template.
//!
//! A template is an ordered list of tokens; a token of the form `%name`
//! stands for a value supplied later. A substitution replaces the first
//! token equal to its placeholder; a substitution whose placeholder occurs
//! nowhere is rejected, as is a template that still holds a `%` token after
//! every substitution was applied.
use vstd::prelude::*;

verus! {

/// Errors from template argument construction.
#[derive(Debug, Clone, Copy, PartialEq, Eq, Structural)]
pub enum ArgError {
    /// A substitution key matched no `%name` token, or a `%name` token was
    /// left standing after all substitutions were applied.
    UnresolvedArgument,
}

/// The token that a substitution for `name` replaces: `%` followed by the name.
pub open spec fn placeholder(name: Seq<char>) -> Seq<char> {
    seq!['%'] + name
}

/// Index of the first element of `args` equal to `tok`, or -1 if none is.
pub open spec fn find_token(args: Seq<Seq<char>>, tok: Seq<char>) -> int
    decreases args.len(),
{
    if args.len() == 0 {
        -1
    } else if args[0] == tok {
        0
    } else if find_token(args.skip(1), tok) == -1 {
        -1
    } else {
        1 + find_token(args.skip(1), tok)
    }
}

/// `find_token` returns -1 exactly on the lists where no element is `tok`.
pub proof fn lemma_find_token_not_found(args: Seq<Seq<char>>, tok: Seq<char>)
    requires
        forall|j: int| 0 <= j < args.len() ==> args[j] != tok,
    ensures
        find_token(args, tok) == -1,
    decreases args.len(),
{
    if args.len() > 0 {
        assert(forall|j: int| 0 <= j < args.skip(1).len() ==> args.skip(1)[j] == args[j + 1]);
        lemma_find_token_not_found(args.skip(1), tok);
    }
}

/// `find_token` returns the first index holding `tok`.
pub proof fn lemma_find_token_found(args: Seq<Seq<char>>, tok: Seq<char>, i: int)
    requires
        0 <= i < args.len(),
        args[i] == tok,
        forall|j: int| 0 <= j < i ==> args[j] != tok,
    ensures
        find_token(args, tok) == i,
    decreases args.len(),
{
    if i > 0 {
        assert(args[0] != tok);
        assert(forall|j: int| 0 <= j < args.skip(1).len() ==> args.skip(1)[j] == args[j + 1]);
        lemma_find_token_found(args.skip(1), tok, i - 1);
    }
}

/// Builds an argument list by substituting `%name` tokens in a template.
pub struct ArgBuilder {
    pub args: Vec<String>,
}

impl ArgBuilder {
    /// Wraps a template whose `%name` tokens await substitution.
    pub fn new(args: Vec<String>) -> (b: ArgBuilder)
        ensures
            b.args == args,
    {
        ArgBuilder { args }
    }

    /// Replaces the first token equal to `%name` with `val`; a key that
    /// matches no token is rejected rather than silently dropped.
    #[verifier::loop_isolation(false)]
    pub fn with(self, name: &str, val: &str) -> (r: Result<ArgBuilder, ArgError>)
        ensures
            ({
                let tok = placeholder(name@);
                let i = find_token(self.args.deep_view(), tok);
                match r {
                    Ok(b) => i >= 0 && b.args.deep_view() =~= self.args.deep_view().update(
                        i,
                        val@,
                    ),
                    Err(e) => i == -1 && e == ArgError::UnresolvedArgument,
                }
            }),
    {
        let ghost tok = placeholder(name@);
        let mut search = String::new();
        search.append("%");
        search.append(name);
        proof {
            reveal_strlit("%");
            assert(search@ =~= tok);
        }
        let n = self.args.len();
        let mut i: usize = 0;
        while i < n
            invariant
                n == self.args.len(),
                0 <= i <= n,
                search@ == tok,
                forall|j: int| 0 <= j < i ==> self.args.deep_view()[j] != tok,
            decreases n - i,
        {
            if self.args[i] == search {
                proof {
                    assert(self.args.deep_view()[i as int] == self.args@[i as int]@);
                    lemma_find_token_found(self.args.deep_view(), tok, i as int);
                }
                let mut args = self.args;
                args.remove(i);
                args.insert(i, val.to_owned());
                proof {
                    assert forall|j: int| 0 <= j < args.deep_view().len() implies args.deep_view()[j]
                        == self.args.deep_view().update(i as int, val@)[j] by {
                        assert(args.deep_view()[j] == args@[j]@);
                        if j != i {
                            assert(args@[j] == self.args@[j]);
                        }
                    }
                    assert(args.deep_view() =~= self.args.deep_view().update(i as int, val@));
                }
                return Ok(ArgBuilder { args });
            }
            proof {
                assert(self.args.deep_view()[i as int] == self.args@[i as int]@);
            }
            i += 1;
        }
        proof {
            lemma_find_token_not_found(self.args.deep_view(), tok);
        }
        Err(ArgError::UnresolvedArgument)
    }

    /// Hands the finished argument list back.
    pub fn build(self) -> (r: Vec<String>)
        ensures
            r == self.args,
    {
        self.args
    }
}

/// The list that results from applying `subs` to `args` in order, each
/// substitution replacing the first token equal to its placeholder; `None`
/// when some substitution finds no token.
pub open spec fn apply_substitutions(
    args: Seq<Seq<char>>,
    subs: Seq<(Seq<char>, Seq<char>)>,
) -> Option<Seq<Seq<char>>>
    decreases subs.len(),
{
    if subs.len() == 0 {
        Some(args)
    } else {
        let i = find_token(args, placeholder(subs[0].0));
        if i == -1 {
            None
        } else {
            apply_substitutions(args.update(i, subs[0].1), subs.skip(1))
        }
    }
}

/// No token of `args` still starts with the `%` substitution marker.
pub open spec fn fully_resolved(args: Seq<Seq<char>>) -> bool {
    forall|i: int| 0 <= i < args.len() ==> (args[i].len() == 0 || args[i][0] != '%')
}

/// Applies every substitution to the template and demands that nothing is
/// left unresolved: the result is exactly `apply_substitutions`, and an
/// error comes precisely when a substitution finds no token or a `%` token
/// survives.
#[verifier::loop_isolation(false)]
pub fn build_arguments(template: Vec<String>, subs: &Vec<(String, String)>) -> (r: Result<
    Vec<String>,
    ArgError,
>)
    ensures
        match r {
            Ok(out) => apply_substitutions(template.deep_view(), subs.deep_view()) == Some(
                out.deep_view(),
            ) && fully_resolved(out.deep_view()),
            Err(e) => e == ArgError::UnresolvedArgument && (match apply_substitutions(
                template.deep_view(),
                subs.deep_view(),
            ) {
                Some(out) => !fully_resolved(out),
                None => true,
            }),
        },
{
    let ghost template_dv = template.deep_view();
    let ghost subs_dv = subs.deep_view();
    let mut builder = ArgBuilder::new(template);
    proof {
        assert(subs_dv.skip(0) =~= subs_dv);
    }
    let n = subs.len();
    let mut k: usize = 0;
    while k < n
        invariant
            n == subs.len(),
            0 <= k <= n,
            subs_dv == subs.deep_view(),
            apply_substitutions(template_dv, subs_dv) == apply_substitutions(
                builder.args.deep_view(),
                subs_dv.skip(k as int),
            ),
        decreases n - k,
    {
        let ghost before = builder.args.deep_view();
        let pair = &subs[k];
        proof {
            assert(subs_dv[k as int] == (subs@[k as int].0@, subs@[k as int].1@));
        }
        match builder.with(pair.0.as_str(), pair.1.as_str()) {
            Ok(b) => {
                builder = b;
                proof {
                    let rest = subs_dv.skip(k as int);
                    assert(rest[0] == subs_dv[k as int]);
                    assert(rest.skip(1) =~= subs_dv.skip(k as int + 1));
                    assert(apply_substitutions(before, rest) == apply_substitutions(
                        builder.args.deep_view(),
                        subs_dv.skip(k as int + 1),
                    ));
                }
                k += 1;
            },
            Err(e) => {
                proof {
                    let rest = subs_dv.skip(k as int);
                    assert(rest[0] == subs_dv[k as int]);
                    assert(apply_substitutions(before, rest) is None);
                }
                return Err(e);
            },
        }
    }
    proof {
        assert(subs_dv.skip(n as int) =~= Seq::<(Seq<char>, Seq<char>)>::empty());
        assert(apply_substitutions(template_dv, subs_dv) == Some(builder.args.deep_view()));
    }
    let out = builder.build();
    let m = out.len();
    let mut j: usize = 0;
    while j < m
        invariant
            m == out.len(),
            0 <= j <= m,
            forall|i: int|
                0 <= i < j ==> (out.deep_view()[i].len() == 0 || out.deep_view()[i][0] != '%'),
        decreases m - j,
    {
        let a = out[j].as_str();
        proof {
            assert(out.deep_view()[j as int] == out@[j as int]@);
        }
        if a.unicode_len() > 0 {
            let c = a.get_char(0);
            if c == '%' {
                proof {
                    assert(out.deep_view()[j as int].len() != 0 && out.deep_view()[j as int][0]
                        == '%');
                    assert(!fully_resolved(out.deep_view()));
                }
                return Err(ArgError::UnresolvedArgument);
            }
        }
        j += 1;
    }
    Ok(out)
}

} // verus!
