//! Redirection resolution: the operators `<` and `>` and their operands are
//! taken out of a stage's argument list and recorded.

use crate::error::{ShellError, ShellErrorView};
use crate::text::{same_text, text_of};
use vstd::prelude::*;

verus! {

/// Where a stage's standard streams are redirected, if anywhere.
#[derive(Debug, PartialEq, Eq)]
pub struct Redirection {
    /// `> filename`: the file that receives standard output.
    pub output_file: Option<String>,
    /// `< filename`: the file that feeds standard input.
    pub input_file: Option<String>,
}

/// The mathematical view of a `Redirection`.
pub struct RedirectionView {
    pub output_file: Option<Seq<char>>,
    pub input_file: Option<Seq<char>>,
}

impl View for Redirection {
    type V = RedirectionView;

    open spec fn view(&self) -> RedirectionView {
        RedirectionView {
            output_file: text_of(self.output_file),
            input_file: text_of(self.input_file),
        }
    }
}

impl RedirectionView {
    /// Neither stream is redirected.
    pub open spec fn is_empty(self) -> bool {
        self.output_file is None && self.input_file is None
    }
}

impl Redirection {
    /// A record that redirects nothing.
    pub fn new() -> (r: Self)
        ensures
            r@.is_empty(),
    {
        Redirection { output_file: None, input_file: None }
    }
}

/// The operator that redirects standard output.
pub open spec fn output_operator() -> Seq<char> {
    seq!['>']
}

/// The operator that redirects standard input.
pub open spec fn input_operator() -> Seq<char> {
    seq!['<']
}

/// A token that is exactly `>` or `<`.
pub open spec fn is_operator(token: Seq<char>) -> bool {
    token == output_operator() || token == input_operator()
}

/// The argument list without its operators and their operands. The list is
/// read from the left; an operator takes the token that follows it, whatever
/// that token is. An operator in last place has no operand and leaves alone.
pub open spec fn cleaned(args: Seq<Seq<char>>) -> Seq<Seq<char>>
    decreases args.len(),
{
    if args.len() == 0 {
        args
    } else if is_operator(args[0]) {
        if args.len() == 1 {
            Seq::empty()
        } else {
            cleaned(args.skip(2))
        }
    } else {
        seq![args[0]] + cleaned(args.skip(1))
    }
}

/// Some operator of the list stands in last place, with no operand after it.
pub open spec fn lacks_operand(args: Seq<Seq<char>>) -> bool
    decreases args.len(),
{
    if args.len() == 0 {
        false
    } else if is_operator(args[0]) {
        args.len() == 1 || lacks_operand(args.skip(2))
    } else {
        lacks_operand(args.skip(1))
    }
}

/// The operand of the last occurrence of `operator` in the list, if it occurs.
pub open spec fn target(args: Seq<Seq<char>>, operator: Seq<char>) -> Option<Seq<char>>
    decreases args.len(),
{
    if args.len() == 0 {
        None
    } else if is_operator(args[0]) {
        if args.len() == 1 {
            None
        } else {
            match target(args.skip(2), operator) {
                Some(later) => Some(later),
                None => if args[0] == operator {
                    Some(args[1])
                } else {
                    None
                },
            }
        }
    } else {
        target(args.skip(1), operator)
    }
}

/// The redirections that an argument list asks for: for each stream the
/// operand of the last operator that names it.
pub open spec fn resolved(args: Seq<Seq<char>>) -> RedirectionView {
    RedirectionView {
        output_file: target(args, output_operator()),
        input_file: target(args, input_operator()),
    }
}

/// The later of two choices wins where there is one.
pub open spec fn later_or(later: Option<Seq<char>>, earlier: Option<Seq<char>>) -> Option<
    Seq<char>,
> {
    match later {
        Some(t) => Some(t),
        None => earlier,
    }
}

/// Tells whether `token` is `>` (`Some(true)`), `<` (`Some(false)`) or no operator.
fn operator_kind(token: &str) -> (r: Option<bool>)
    ensures
        r == if token@ == output_operator() {
            Some(true)
        } else if token@ == input_operator() {
            Some(false)
        } else {
            None::<bool>
        },
{
    proof {
        reveal_strlit(">");
        reveal_strlit("<");
        assert(">"@ =~= output_operator());
        assert("<"@ =~= input_operator());
        assert(output_operator()[0] != input_operator()[0]);
    }
    if same_text(token, ">") {
        Some(true)
    } else if same_text(token, "<") {
        Some(false)
    } else {
        None
    }
}

/// Takes the redirections out of `args`.
///
/// The list is scanned from the left. An operator and the token after it are
/// removed, and the token becomes the stream's file; a later operator for the
/// same stream overrides an earlier one. An operator with nothing after it is
/// an error; it is removed too, like the redirections before it.
pub fn redirection_analysis(args: &mut Vec<String>) -> (r: Result<Redirection, ShellError>)
    ensures
        final(args).deep_view() == cleaned(old(args).deep_view()),
        match r {
            Ok(rdr) => !lacks_operand(old(args).deep_view()) && rdr@ == resolved(
                old(args).deep_view(),
            ),
            Err(e) => lacks_operand(old(args).deep_view()) && e@ == ShellErrorView::Redirection(
                "missing filename after operator"@,
            ),
        },
{
    let mut rdr = Redirection::new();
    let mut i: usize = 0;
    let ghost all = args.deep_view();
    assert(all.take(0) + cleaned(all.skip(0)) =~= cleaned(all)) by {
        assert(all.skip(0) =~= all);
    }
    assert(all.skip(0) =~= all);
    while i < args.len()
        invariant
            i <= args.len(),
            all == old(args).deep_view(),
            cleaned(all) == args.deep_view().take(i as int) + cleaned(args.deep_view().skip(i as int)),
            lacks_operand(all) == lacks_operand(args.deep_view().skip(i as int)),
            target(all, output_operator()) == later_or(
                target(args.deep_view().skip(i as int), output_operator()),
                rdr@.output_file,
            ),
            target(all, input_operator()) == later_or(
                target(args.deep_view().skip(i as int), input_operator()),
                rdr@.input_file,
            ),
        decreases args.len() - i,
    {
        let ghost now = args.deep_view();
        let ghost rest = now.skip(i as int);
        assert(rest[0] == now[i as int]);
        assert(output_operator()[0] != input_operator()[0]);
        match operator_kind(args[i].as_str()) {
            Some(is_output) => {
                args.remove(i);
                assert(args.deep_view() =~= now.take(i as int) + now.skip(i + 1));
                if i < args.len() {
                    let filename = args.remove(i);
                    proof {
                        assert(filename@ == rest[1]);
                        assert(args.deep_view() =~= now.take(i as int) + now.skip(i + 2));
                        assert(args.deep_view().take(i as int) =~= now.take(i as int));
                        assert(args.deep_view().skip(i as int) =~= rest.skip(2));
                    }
                    if is_output {
                        rdr.output_file = Some(filename);
                    } else {
                        rdr.input_file = Some(filename);
                    }
                } else {
                    proof {
                        assert(rest.len() == 1);
                        assert(args.deep_view() =~= now.take(i as int));
                        assert(now.take(i as int) + Seq::<Seq<char>>::empty() =~= now.take(
                            i as int,
                        ));
                    }
                    return Err(
                        ShellError::RedirectionError("missing filename after operator".to_owned()),
                    );
                }
            },
            None => {
                proof {
                    assert(rest.skip(1) =~= now.skip(i + 1));
                    assert(now.take(i + 1) =~= now.take(i as int).push(now[i as int]));
                    assert(now.take(i as int).push(now[i as int]) + cleaned(now.skip(i + 1))
                        =~= now.take(i as int) + (seq![rest[0]] + cleaned(rest.skip(1))));
                }
                i += 1;
            },
        }
    }
    proof {
        let now = args.deep_view();
        assert(now.skip(i as int) =~= Seq::<Seq<char>>::empty());
        assert(now.take(i as int) =~= now);
        assert(now + Seq::<Seq<char>>::empty() =~= now);
    }
    Ok(rdr)
}

/// No token of the list is an operator.
pub open spec fn operator_free(args: Seq<Seq<char>>) -> bool {
    forall|i: int| 0 <= i < args.len() ==> !is_operator(#[trigger] args[i])
}

/// What resolution leaves behind holds no operator.
pub proof fn lemma_cleaned_is_operator_free(args: Seq<Seq<char>>)
    ensures
        operator_free(cleaned(args)),
    decreases args.len(),
{
    if args.len() == 0 {
    } else if is_operator(args[0]) {
        if args.len() > 1 {
            lemma_cleaned_is_operator_free(args.skip(2));
        }
    } else {
        lemma_cleaned_is_operator_free(args.skip(1));
        let rest = cleaned(args.skip(1));
        assert forall|i: int| 0 <= i < cleaned(args).len() implies !is_operator(
            #[trigger] cleaned(args)[i],
        ) by {
            if i > 0 {
                assert(cleaned(args)[i] == rest[i - 1]);
            }
        }
    }
}

/// A list without operators redirects nothing, and resolution leaves it as it is.
pub proof fn lemma_operator_free_is_fixed(args: Seq<Seq<char>>)
    requires
        operator_free(args),
    ensures
        cleaned(args) == args,
        !lacks_operand(args),
        resolved(args).is_empty(),
    decreases args.len(),
{
    if args.len() > 0 {
        let rest = args.skip(1);
        assert(!is_operator(args[0]));
        assert forall|i: int| 0 <= i < rest.len() implies !is_operator(#[trigger] rest[i]) by {
            assert(rest[i] == args[i + 1]);
        }
        lemma_operator_free_is_fixed(rest);
        assert(seq![args[0]] + rest =~= args);
    }
}

/// Redirection resolution is idempotent: on the list that a first run has
/// cleaned, a second run succeeds, finds no redirection and changes nothing.
pub proof fn lemma_resolution_is_idempotent(args: Seq<Seq<char>>)
    ensures
        !lacks_operand(cleaned(args)),
        resolved(cleaned(args)).is_empty(),
        cleaned(cleaned(args)) == cleaned(args),
{
    lemma_cleaned_is_operator_free(args);
    lemma_operator_free_is_fixed(cleaned(args));
}

} // verus!
