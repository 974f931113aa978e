use vstd::prelude::*;
use crate::error::RudError;
use crate::node::{node_view, render_node, SpecNode};
use crate::source::{scan_spec, Lexer, Source};
use crate::token::{
    node_result_view, parse_call_spec, parse_fn_spec, split_spec, split_view, toks_view, Parse,
    SpecToken, Tokens,
};

verus! {

/// A logical line without the line terminators that closed it.
pub open spec fn strip_trailing_line_terms(g: Seq<SpecToken>) -> Seq<SpecToken>
    decreases g.len(),
{
    if g.len() > 0 && (g[g.len() - 1].kind is LineTerm) {
        strip_trailing_line_terms(g.subrange(0, g.len() - 1))
    } else {
        g
    }
}

/// The parse of one logical line: a group that opens with a
/// standard-function name is a standalone call read without its closing
/// line terminators, any other group is a function definition.
pub open spec fn parse_group_spec(g: Seq<SpecToken>) -> Result<SpecNode, RudError> {
    if g.len() > 0 && (g[0].kind is RudStdFn) {
        parse_call_spec(strip_trailing_line_terms(g))
    } else {
        parse_fn_spec(g)
    }
}

/// The groups parsed and rendered in order; the first failure aborts the
/// whole run.
pub open spec fn render_groups_spec(gs: Seq<Seq<SpecToken>>) -> Result<Seq<Seq<char>>, RudError>
    decreases gs.len(),
{
    if gs.len() == 0 {
        Result::Ok(Seq::empty())
    } else {
        match parse_group_spec(gs[0]) {
            Result::Err(e) => Result::Err(e),
            Result::Ok(n) => match render_groups_spec(gs.subrange(1, gs.len() as int)) {
                Result::Err(e) => Result::Err(e),
                Result::Ok(rest) => Result::Ok(seq![render_node(n)] + rest),
            },
        }
    }
}

/// One whole translation: scan the characters, split the tokens into
/// logical lines, parse each line, render each tree — or the failure that
/// stopped the pipeline, with no partial output.
pub open spec fn translate_spec(s: Seq<char>) -> Result<Seq<Seq<char>>, RudError> {
    match scan_spec(s) {
        Result::Err(e) => Result::Err(e),
        Result::Ok(ts) => render_groups_spec(split_spec(ts)),
    }
}

proof fn lemma_render_groups_step(pre: Seq<Seq<char>>, one: Seq<char>, r: Result<
    Seq<Seq<char>>,
    RudError,
>)
    ensures
        ({
            let stepped = match r {
                Result::Ok(rest) => Result::<Seq<Seq<char>>, RudError>::Ok(seq![one] + rest),
                Result::Err(e) => Result::<Seq<Seq<char>>, RudError>::Err(e),
            };
            match stepped {
                Result::Ok(all) => Result::<Seq<Seq<char>>, RudError>::Ok(pre + all) == (match r {
                    Result::Ok(rest) => Result::<Seq<Seq<char>>, RudError>::Ok(
                        pre.push(one) + rest,
                    ),
                    Result::Err(e) => Result::<Seq<Seq<char>>, RudError>::Err(e),
                }),
                Result::Err(_) => true,
            }
        }),
{
    match r {
        Result::Ok(rest) => {
            assert(pre + (seq![one] + rest) =~= pre.push(one) + rest);
        },
        Result::Err(_) => {
        },
    }
}

/// Runs the whole pipeline on one in-memory source text and returns the
/// rendered output of each logical line, or the failure that aborted the
/// translation.
#[verifier::rlimit(60)]
#[verifier::loop_isolation(false)]
pub fn translate(source_code: &str) -> (r: Result<Vec<String>, RudError>)
    ensures
        (r matches Result::Ok(v) ==> translate_spec(source_code@) == Result::<
            Seq<Seq<char>>,
            RudError,
        >::Ok(v@.map_values(|x: String| x@))),
        (r matches Result::Err(e) ==> translate_spec(source_code@) == Result::<
            Seq<Seq<char>>,
            RudError,
        >::Err(e)),
{
    let mut source = Source::new(source_code);
    let tokens = match source.to_tokens() {
        Result::Ok(t) => t,
        Result::Err(e) => {
            return Result::Err(e);
        },
    };
    let ghost all_groups = split_spec(toks_view(tokens@));
    let mut groups = tokens.split();
    let mut out: Vec<String> = Vec::new();
    proof {
        assert(out@.map_values(|x: String| x@) =~= Seq::<Seq<char>>::empty());
    }
    while groups.len() > 0
        invariant
            ({
                let done = out@.map_values(|x: String| x@);
                render_groups_spec(all_groups) == (match render_groups_spec(split_view(groups@)) {
                    Result::Ok(rest) => Result::<Seq<Seq<char>>, RudError>::Ok(done + rest),
                    Result::Err(e) => Result::<Seq<Seq<char>>, RudError>::Err(e),
                })
            }),
        decreases groups.len(),
    {
        let ghost done = out@.map_values(|x: String| x@);
        let ghost gs = split_view(groups@);
        let group = groups.remove(0);
        let ghost gv = toks_view(group@);
        proof {
            assert(gs[0] == gv);
            assert(split_view(groups@) =~= gs.subrange(1, gs.len() as int));
        }
        let mut group = group;
        let node = if group.len() > 0 && group[0].kind.is_rud_std_fn() {
            while group.len() > 0 && group[group.len() - 1].kind.is_line_term()
                invariant
                    strip_trailing_line_terms(gv) == strip_trailing_line_terms(
                        toks_view(group@),
                    ),
                decreases group.len(),
            {
                let ghost before = toks_view(group@);
                group.pop();
                proof {
                    assert(toks_view(group@) =~= before.subrange(0, before.len() - 1));
                }
            }
            proof {
                assert(strip_trailing_line_terms(toks_view(group@)) == toks_view(group@));
            }
            group.to_rud_std_fn_node()
        } else {
            group.to_user_defined_fn()
        };
        let node = match node {
            Result::Ok(n) => n,
            Result::Err(e) => {
                return Result::Err(e);
            },
        };
        proof {
            assert(parse_group_spec(gv) == Result::<SpecNode, RudError>::Ok(node_view(node)));
        }
        let code = node.to_code();
        proof {
            lemma_render_groups_step(done, render_node(node_view(node)), render_groups_spec(
                split_view(groups@),
            ));
            assert(out@.push(code).map_values(|x: String| x@) =~= done.push(code@));
        }
        out.push(code);
    }
    proof {
        assert(split_view(groups@) =~= Seq::<Seq<SpecToken>>::empty());
        assert(out@.map_values(|x: String| x@) + Seq::<Seq<char>>::empty() =~= out@.map_values(
            |x: String| x@,
        ));
    }
    Result::Ok(out)
}

/// For every input, the translation is deterministic: the outcome — the
/// rendered output or the failure — is a function of the input characters
/// alone, so two runs on the same text always agree.
pub proof fn lemma_translate_deterministic(
    s: Seq<char>,
    r1: Result<Seq<Seq<char>>, RudError>,
    r2: Result<Seq<Seq<char>>, RudError>,
)
    requires
        r1 == translate_spec(s),
        r2 == translate_spec(s),
    ensures
        r1 == r2,
{
}

} // verus!
