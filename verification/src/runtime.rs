//! The selection policy and the command it resolves to.
//!
//! At selection time the host invokes every loaded plugin in load
//! order with the selected host's boundary record; each returns either
//! an argument list or the null sentinel.  The outcome is folded
//! last-plugin-wins: a returned list replaces the override, the
//! sentinel means "no opinion" and leaves it unchanged.  The terminal
//! state resolves to the launched command: the override's arguments
//! joined by single spaces, or the default `ssh` command for the
//! host's name.

use vstd::prelude::*;
use vstd::string::StringExecFns;

use crate::model::Host;

verus! {

/// Terminal or intermediate state of one selection call.
#[derive(Debug, PartialEq, Eq)]
pub enum SelectionOutcome {
    /// No plugin has overridden the arguments so far.
    NoOverride,
    /// The override of the last plugin that returned a list.
    Override(Vec<String>),
}

/// Mathematical value of a selection state: the override's texts, if
/// any.
pub open spec fn outcome_view(o: SelectionOutcome) -> Option<Seq<Seq<char>>> {
    match o {
        SelectionOutcome::NoOverride => None,
        SelectionOutcome::Override(args) => Some(args.deep_view()),
    }
}

/// One plugin's answer folded into the running outcome: a list
/// replaces it, the null sentinel leaves it unchanged.
pub open spec fn step_override(
    current: Option<Seq<Seq<char>>>,
    result: Option<Seq<Seq<char>>>,
) -> Option<Seq<Seq<char>>> {
    match result {
        Some(args) => Some(args),
        None => current,
    }
}

/// The outcome after a whole sequence of plugin answers, in load
/// order, starting from no override.
pub open spec fn fold_override(results: Seq<Option<Seq<Seq<char>>>>) -> Option<Seq<Seq<char>>>
    decreases results.len(),
{
    if results.len() == 0 {
        None
    } else {
        step_override(fold_override(results.drop_last()), results.last())
    }
}

/// Folds one plugin's decoded answer into the outcome.
pub fn selection_step(current: SelectionOutcome, result: Option<Vec<String>>) -> (r:
    SelectionOutcome)
    ensures
        outcome_view(r) == step_override(outcome_view(current), result.deep_view()),
{
    match result {
        Some(args) => SelectionOutcome::Override(args),
        None => current,
    }
}

/// With no loaded plugins, or every plugin answering the null
/// sentinel, a selection call ends without an override.
pub proof fn lemma_selection_fallback(results: Seq<Option<Seq<Seq<char>>>>)
    requires
        forall|i: int| 0 <= i < results.len() ==> results[i] is None,
    ensures
        fold_override(results) is None,
    decreases results.len(),
{
    if results.len() > 0 {
        let prefix = results.drop_last();
        assert(forall|i: int| 0 <= i < prefix.len() ==> prefix[i] == results[i]);
        lemma_selection_fallback(prefix);
    }
}

/// Last plugin wins: an answered list becomes the outcome whatever
/// came before it, and the null sentinel never erases an earlier
/// override.
pub proof fn lemma_last_wins(results: Seq<Option<Seq<Seq<char>>>>, last: Option<Seq<Seq<char>>>)
    ensures
        last is Some ==> fold_override(results.push(last)) == last,
        last is None ==> fold_override(results.push(last)) == fold_override(results),
{
    assert(results.push(last).drop_last() =~= results);
}

/// The override's arguments joined by single spaces.
pub open spec fn joined(args: Seq<Seq<char>>) -> Seq<char>
    decreases args.len(),
{
    if args.len() == 0 {
        Seq::empty()
    } else if args.len() == 1 {
        args[0]
    } else {
        joined(args.drop_last()) + seq![' '] + args.last()
    }
}

/// The command a host resolves to without an override.
pub open spec fn default_command(name: Seq<char>) -> Seq<char> {
    "ssh "@ + name
}

/// The command launched for the selected host: the override joined by
/// spaces, or the default command for its name.
pub open spec fn resolved_command(o: Option<Seq<Seq<char>>>, name: Seq<char>) -> Seq<char> {
    match o {
        Some(args) => joined(args),
        None => default_command(name),
    }
}

fn join_spaced(args: &Vec<String>) -> (r: String)
    ensures
        r@ == joined(args.deep_view()),
{
    let mut out = String::new();
    let n = args.len();
    let mut i: usize = 0;
    while i < n
        invariant
            i <= n,
            n == args@.len(),
            out@ == joined(args.deep_view().subrange(0, i as int)),
        decreases n - i,
    {
        if i > 0 {
            out.append(" ");
            proof {
                reveal_strlit(" ");
                assert(" "@ =~= seq![' ']);
            }
        }
        out.append(args[i].as_str());
        proof {
            let dv = args.deep_view();
            assert(dv.subrange(0, i + 1).drop_last() =~= dv.subrange(0, i as int));
            assert(dv.subrange(0, i + 1).last() == dv[i as int]);
            assert(dv[i as int] == args@[i as int]@);
            if i > 0 {
                assert(out@ == joined(dv.subrange(0, i + 1)));
            } else {
                assert(dv.subrange(0, 1).len() == 1);
                assert(out@ == joined(dv.subrange(0, i + 1)));
            }
        }
        i += 1;
    }
    proof {
        assert(args.deep_view().subrange(0, n as int) =~= args.deep_view());
    }
    out
}

/// Resolves the terminal selection state for `host` into the command
/// to launch.
pub fn resolve_command(outcome: &SelectionOutcome, host: &Host) -> (r: String)
    ensures
        r@ == resolved_command(outcome_view(*outcome), host@.name),
{
    match outcome {
        SelectionOutcome::NoOverride => {
            let mut out = String::from_str("ssh ");
            out.append(host.name.as_str());
            out
        },
        SelectionOutcome::Override(args) => join_spaced(args),
    }
}

} // verus!
