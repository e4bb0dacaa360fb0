//! What holds of every context and every evaluation.

use crate::context::{binding_frame, lookup_frames, set_outcome, ContextView, Outcome};
use crate::error::ErrorView;
use crate::eval::{
    after_call, applies, dispatches, evals, evals_each, evals_operands, evals_pair, form_runs,
    is_ctx_procedure, lambda_runs, last_value, pair, reached, reached_each, Outcomes,
};
use crate::forms::{
    bound_upto, core_forms, form_arity, form_name, form_value, is_symbol_value, lemma_core_forms,
    name_of, symbol_names, undefined,
};
use crate::list::{clip, elements, list_of};
use crate::procedure::{arity_accepts, arity_check, arity_expected, Callable};
use crate::sexp::{
    Arity, CodeView, EnvView, Form, FuncView, LambdaView, PrimitiveView, ProcView, SExpView,
};
use vstd::prelude::*;

verus! {

/// The context after `count` more scopes were pushed.
pub open spec fn nested<F>(ctx: ContextView<F>, count: nat) -> ContextView<F>
    decreases count,
{
    if count == 0 {
        ctx
    } else {
        nested(ctx, (count - 1) as nat).push()
    }
}

/// The expression evaluates to itself: it is a vector, or an atom that is
/// no symbol.
pub open spec fn self_evaluating<F>(expr: SExpView<F>) -> bool {
    match expr {
        SExpView::Vector(_) => true,
        SExpView::Atom(atom) => !(atom is Symbol),
        _ => false,
    }
}

/// A name has a user binding exactly when some scope binds it, and the
/// innermost such scope decides its value.
pub proof fn lemma_binding_frame<F>(frames: Seq<EnvView<F>>, key: Seq<char>)
    ensures
        binding_frame(frames, key) is Some <==> lookup_frames(frames, key) is Some,
        binding_frame(frames, key) is Some <==> exists|i: int|
            0 <= i < frames.len() && (#[trigger] frames[i]).contains_key(key),
        binding_frame(frames, key) matches Some(i) ==> {
            &&& 0 <= i < frames.len()
            &&& frames[i].contains_key(key)
            &&& lookup_frames(frames, key) == Some(frames[i][key])
            &&& forall|j: int| i < j < frames.len() ==> !(#[trigger] frames[j]).contains_key(key)
        },
    decreases frames.len(),
{
    if frames.len() > 0 {
        let front = frames.drop_last();
        lemma_binding_frame(front, key);
        if frames.last().contains_key(key) {
            assert(frames[frames.len() - 1].contains_key(key));
        } else {
            assert forall|i: int| 0 <= i < frames.len() && (#[trigger] frames[i]).contains_key(
                key,
            ) implies 0 <= i < front.len() && front[i].contains_key(key) by {}
            if binding_frame(front, key) is Some {
                let i = choose|i: int| 0 <= i < front.len() && (#[trigger] front[i]).contains_key(key);
                assert(frames[i].contains_key(key));
                let at = binding_frame(front, key)->Some_0;
                assert(frames[at] == front[at]);
                assert forall|j: int| at < j < frames.len() implies !(#[trigger] frames[j]).contains_key(
                    key,
                ) by {
                    if j < front.len() {
                        assert(front[j] == frames[j]);
                    }
                }
            }
        }
    }
}

/// A definition is what its name resolves to, in the scope where it was
/// made and in every scope pushed after it, unless the special forms or the
/// current continuation node bind the name: those are looked up first.
pub proof fn lemma_define_then_get<F>(
    ctx: ContextView<F>,
    key: Seq<char>,
    value: SExpView<F>,
    pushes: nat,
)
    requires
        ctx.valid(),
        !ctx.core.contains_key(key),
        !ctx.current().contains_key(key),
    ensures
        nested(ctx.define(key, value), pushes).get(key) == Some(value),
        lookup_frames(nested(ctx.define(key, value), pushes).user, key) == Some(value),
        nested(ctx.define(key, value), pushes).core == ctx.core,
        nested(ctx.define(key, value), pushes).cont == ctx.cont,
        nested(ctx.define(key, value), pushes).lang == ctx.lang,
    decreases pushes,
{
    if pushes > 0 {
        lemma_define_then_get(ctx, key, value, (pushes - 1) as nat);
        let outer = nested(ctx.define(key, value), (pushes - 1) as nat);
        assert(outer.push().user.drop_last() =~= outer.user);
    }
}

/// Re-binding a name that no user scope binds fails and changes nothing.
pub proof fn lemma_set_unbound<F>(ctx: ContextView<F>, key: Seq<char>, value: SExpView<F>)
    requires
        lookup_frames(ctx.user, key) is None,
    ensures
        ctx.set(key, value) == ctx,
        set_outcome(ctx, key) == Outcome::<F>::Err(ErrorView::UndefinedSymbol { sym: key }),
{
    lemma_binding_frame(ctx.user, key);
}

/// Re-binding a name that a user scope binds succeeds; the name then has
/// the new value in the user's scopes; no scope is added and no scope binds
/// a name that it did not bind before; every other name keeps its value;
/// and the other layers stay as they were.
pub proof fn lemma_set_rebinds<F>(ctx: ContextView<F>, key: Seq<char>, value: SExpView<F>)
    requires
        lookup_frames(ctx.user, key) is Some,
    ensures
        set_outcome(ctx, key) == Outcome::<F>::Ok(SExpView::Atom(PrimitiveView::Undefined)),
        lookup_frames(ctx.set(key, value).user, key) == Some(value),
        ctx.set(key, value).user.len() == ctx.user.len(),
        forall|i: int|
            0 <= i < ctx.user.len() ==> (#[trigger] ctx.set(key, value).user[i]).dom()
                == ctx.user[i].dom(),
        forall|other: Seq<char>|
            other != key ==> lookup_frames(ctx.set(key, value).user, other) == lookup_frames(
                ctx.user,
                other,
            ),
        ctx.set(key, value).core == ctx.core,
        ctx.set(key, value).lang == ctx.lang,
        ctx.set(key, value).cont == ctx.cont,
{
    lemma_binding_frame(ctx.user, key);
    let at = binding_frame(ctx.user, key)->Some_0;
    let after = ctx.set(key, value).user;
    assert forall|i: int| 0 <= i < ctx.user.len() implies (#[trigger] after[i]).dom()
        == ctx.user[i].dom() by {
        if i == at {
            assert(after[i].dom() =~= ctx.user[i].dom());
        }
    }
    lemma_rebound_lookup(ctx.user, at, key, value);
    assert forall|other: Seq<char>| other != key implies lookup_frames(after, other)
        == lookup_frames(ctx.user, other) by {
        lemma_other_lookup(ctx.user, at, key, value, other);
    }
}

/// After the innermost scope that binds a name was given a new value for
/// it, the name has that value.
proof fn lemma_rebound_lookup<F>(
    frames: Seq<EnvView<F>>,
    at: int,
    key: Seq<char>,
    value: SExpView<F>,
)
    requires
        0 <= at < frames.len(),
        forall|j: int| at < j < frames.len() ==> !(#[trigger] frames[j]).contains_key(key),
    ensures
        lookup_frames(frames.update(at, frames[at].insert(key, value)), key) == Some(value),
    decreases frames.len(),
{
    let after = frames.update(at, frames[at].insert(key, value));
    if at < frames.len() - 1 {
        assert(after.last() == frames[frames.len() - 1]);
        let front = frames.drop_last();
        assert forall|j: int| at < j < front.len() implies !(#[trigger] front[j]).contains_key(
            key,
        ) by {
            assert(front[j] == frames[j]);
        }
        lemma_rebound_lookup(front, at, key, value);
        assert(after.drop_last() =~= front.update(at, front[at].insert(key, value)));
    }
}

/// A new value for one name in one scope leaves every other name as it was.
proof fn lemma_other_lookup<F>(
    frames: Seq<EnvView<F>>,
    at: int,
    key: Seq<char>,
    value: SExpView<F>,
    other: Seq<char>,
)
    requires
        0 <= at < frames.len(),
        other != key,
    ensures
        lookup_frames(frames.update(at, frames[at].insert(key, value)), other) == lookup_frames(
            frames,
            other,
        ),
    decreases frames.len(),
{
    let after = frames.update(at, frames[at].insert(key, value));
    if at < frames.len() - 1 {
        let front = frames.drop_last();
        lemma_other_lookup(front, at, key, value, other);
        assert(after.drop_last() =~= front.update(at, front[at].insert(key, value)));
        assert(after.last() == frames.last());
    } else {
        assert(after.drop_last() =~= frames.drop_last());
    }
}

/// A scope that is pushed, defined in and popped leaves the context as it
/// was: what was defined in it is gone, and nothing else has changed. So a
/// name resolves to what it resolved to before the push, and to nothing if
/// it resolved to nothing then.
pub proof fn lemma_push_define_pop<F>(ctx: ContextView<F>, key: Seq<char>, value: SExpView<F>)
    requires
        ctx.valid(),
    ensures
        ctx.push().define(key, value).pop() == ctx,
        ctx.push().define(key, value).pop().get(key) == ctx.get(key),
        ctx.get(key) is None ==> ctx.push().define(key, value).pop().get(key) is None,
{
    let inner = ctx.push().define(key, value);
    assert(inner.user.drop_last() =~= ctx.user);
}

/// A definition in a nested scope shadows the definitions of the same name
/// in the scopes around it for as long as the nested scope lasts.
pub proof fn lemma_define_shadows<F>(
    ctx: ContextView<F>,
    key: Seq<char>,
    outer: SExpView<F>,
    inner: SExpView<F>,
)
    requires
        ctx.valid(),
    ensures
        lookup_frames(ctx.define(key, outer).push().define(key, inner).user, key) == Some(inner),
        lookup_frames(ctx.define(key, outer).push().define(key, inner).pop().user, key) == Some(
            outer,
        ),
{
    lemma_define_then_get_user(ctx, key, outer);
    lemma_define_then_get_user(ctx.define(key, outer).push(), key, inner);
    lemma_push_define_pop(ctx.define(key, outer), key, inner);
}

/// A definition is what the user's scopes bind its name to.
pub proof fn lemma_define_then_get_user<F>(ctx: ContextView<F>, key: Seq<char>, value: SExpView<F>)
    requires
        ctx.valid(),
    ensures
        lookup_frames(ctx.define(key, value).user, key) == Some(value),
{
}

/// Popping the only scope leaves one scope, which binds nothing.
pub proof fn lemma_pop_only_scope<F>(ctx: ContextView<F>)
    requires
        ctx.user.len() == 1,
    ensures
        ctx.pop().user == seq![EnvView::<F>::empty()],
        ctx.pop().valid() == ctx.valid(),
{
}

/// The user's stack of scopes never becomes empty, and neither does the
/// continuation chain.
pub proof fn lemma_operations_keep_valid<F>(
    ctx: ContextView<F>,
    key: Seq<char>,
    value: SExpView<F>,
    env: Option<EnvView<F>>,
)
    requires
        ctx.valid(),
    ensures
        ctx.push().valid(),
        ctx.pop().valid(),
        ctx.define(key, value).valid(),
        ctx.set(key, value).valid(),
        ctx.push_cont(env).valid(),
        ctx.pop_cont().valid(),
{
    lemma_binding_frame(ctx.user, key);
}

/// No operation on a context changes its special forms.
pub proof fn lemma_core_is_fixed<F>(
    ctx: ContextView<F>,
    key: Seq<char>,
    value: SExpView<F>,
    env: Option<EnvView<F>>,
)
    ensures
        ctx.push().core == ctx.core,
        ctx.pop().core == ctx.core,
        ctx.define(key, value).core == ctx.core,
        ctx.set(key, value).core == ctx.core,
        ctx.push_cont(env).core == ctx.core,
        ctx.pop_cont().core == ctx.core,
{
}

/// A name that the special forms bind resolves to what they bind it to,
/// whatever the user defines or re-binds under that name.
pub proof fn lemma_core_comes_first<F>(ctx: ContextView<F>, key: Seq<char>, value: SExpView<F>)
    requires
        ctx.core.contains_key(key),
    ensures
        ctx.get(key) == Some(ctx.core[key]),
        ctx.define(key, value).get(key) == Some(ctx.core[key]),
        ctx.set(key, value).get(key) == Some(ctx.core[key]),
{
}

/// Re-binding touches the user's scopes only: not the special forms, the
/// library or the continuation chain.
pub proof fn lemma_set_touches_user_only<F>(ctx: ContextView<F>, key: Seq<char>, value: SExpView<F>)
    ensures
        ctx.set(key, value).core == ctx.core,
        ctx.set(key, value).lang == ctx.lang,
        ctx.set(key, value).cont == ctx.cont,
{
}

/// A definition is written into the innermost scope and nowhere else.
pub proof fn lemma_define_writes_innermost<F>(
    ctx: ContextView<F>,
    key: Seq<char>,
    value: SExpView<F>,
)
    requires
        ctx.valid(),
    ensures
        ctx.define(key, value).user.len() == ctx.user.len(),
        ctx.define(key, value).user.last() == ctx.user.last().insert(key, value),
        forall|i: int|
            0 <= i < ctx.user.len() - 1 ==> (#[trigger] ctx.define(key, value).user[i]) == ctx.user[i],
        ctx.define(key, value).core == ctx.core,
        ctx.define(key, value).lang == ctx.lang,
        ctx.define(key, value).cont == ctx.cont,
{
}

/// A continuation node that is pushed and popped leaves the chain as it
/// was. A push without captured bindings changes nothing, so the pop after
/// it takes the chain back to the parent of the node that was current.
pub proof fn lemma_push_pop_cont<F>(ctx: ContextView<F>, env: EnvView<F>)
    requires
        ctx.valid(),
    ensures
        ctx.push_cont(Some(env)).pop_cont() == ctx,
        ctx.push_cont(Some(env)).current() == env,
        ctx.push_cont(None) == ctx,
{
    assert(ctx.cont.push(env).drop_last() =~= ctx.cont);
}

/// An atom that is no symbol, and a vector, evaluates to itself and leaves
/// the context as it was.
pub proof fn lemma_self_evaluating<F: Callable>(
    depth: nat,
    pre: ContextView<F>,
    expr: SExpView<F>,
    post: ContextView<F>,
    out: Outcome<F>,
)
    requires
        self_evaluating(expr),
        evals(depth, pre, expr, post, out),
    ensures
        out == Outcome::<F>::Ok(expr),
        post == pre,
{
}

/// Evaluating the empty list is an error, and leaves the context as it was.
pub proof fn lemma_null_is_an_error<F: Callable>(
    depth: nat,
    pre: ContextView<F>,
    post: ContextView<F>,
    out: Outcome<F>,
)
    requires
        evals(depth, pre, SExpView::Null, post, out),
    ensures
        out == Outcome::<F>::Err(ErrorView::NullList),
        post == pre,
{
}

/// A symbol evaluates to what it resolves to. A symbol that resolves to
/// nothing, or to the undefined placeholder, is an error.
pub proof fn lemma_symbol<F: Callable>(
    depth: nat,
    pre: ContextView<F>,
    name: Seq<char>,
    post: ContextView<F>,
    out: Outcome<F>,
)
    requires
        evals(depth, pre, SExpView::Atom(PrimitiveView::Symbol(name)), post, out),
    ensures
        post == pre,
        pre.get(name) is None ==> out == Outcome::<F>::Err(ErrorView::UndefinedSymbol { sym: name }),
        pre.get(name) == Some(SExpView::<F>::Atom(PrimitiveView::Undefined)) ==> out == Outcome::<
            F,
        >::Err(ErrorView::UndefinedSymbol { sym: name }),
        pre.get(name) is Some && pre.get(name) != Some(
            SExpView::<F>::Atom(PrimitiveView::Undefined),
        ) ==> out == Outcome::<F>::Ok(pre.get(name)->Some_0),
{
}

/// An arity of exactly `n` accepts `n` arguments and no other number; an
/// arity of at least `n` accepts `n` and every number above it.
pub proof fn lemma_arity(n: usize, given: usize)
    ensures
        arity_accepts(Arity::Exact(n), given) <==> given == n,
        arity_accepts(Arity::Min(n), given) <==> given >= n,
        arity_check(Arity::Exact(n), given) is Ok <==> given == n,
        arity_check(Arity::Min(n), given) is Ok <==> given >= n,
{
}

/// Code of the host that takes its arguments as they were written is
/// handed the tail of the application unchanged: no element of it is
/// evaluated before the call. The context that the code sees is the one
/// that the evaluation of the operator left, with the procedure's
/// continuation node pushed, and that node is popped after the call.
pub proof fn lemma_ctx_procedure_gets_tail<F: Callable>(
    depth: nat,
    pre: ContextView<F>,
    op: SExpView<F>,
    tail: SExpView<F>,
    post: ContextView<F>,
    out: Outcome<F>,
)
    requires
        op matches SExpView::Atom(PrimitiveView::Procedure(p)) && p.func matches FuncView::Ctx(
            CodeView::Host(_),
        ),
        evals_operands(depth, pre, op, tail, post, out),
    ensures
        ({
            let proc = op->Atom_0->Procedure_0;
            let code = proc.func->Ctx_0->Host_0;
            match arity_check(proc.arity, clip(elements(tail).len())) {
                Err(e) => post == pre && out == Outcome::<F>::Err(e),
                Ok(_) => exists|left: ContextView<F>|
                    {
                        &&& #[trigger] code.ctx_spec(pre.push_cont(proc.env), tail, left, out)
                        &&& post == after_call(proc, left)
                    },
            }
        }),
{
    let proc = op->Atom_0->Procedure_0;
    let code = proc.func->Ctx_0->Host_0;
    assert(applies(depth, pre, pair(op, tail), post, out));
    if arity_check(proc.arity, clip(elements(tail).len())) is Ok {
        let left = choose|left: ContextView<F>|
            {
                &&& #[trigger] reached(left, out)
                &&& dispatches(depth, proc, pre.push_cont(proc.env), tail, left, out)
                &&& post == after_call(proc, left)
            };
        assert(code.ctx_spec(pre.push_cont(proc.env), tail, left, out));
    }
}

/// Evaluating an application whose operator is code of the host that takes
/// its arguments as they were written, where the context still allows
/// nesting: the operator is evaluated, and then the code is handed the tail
/// of the application as it was written. What the code yields is what the
/// evaluation yields.
pub proof fn lemma_ctx_operator<F: Callable>(
    depth: nat,
    pre: ContextView<F>,
    head: SExpView<F>,
    tail: SExpView<F>,
    post: ContextView<F>,
    out: Outcome<F>,
)
    requires
        depth >= 1,
        evals(depth, pre, pair(head, tail), post, out),
    ensures
        exists|mid: ContextView<F>, operator: Outcome<F>|
            {
                &&& #[trigger] reached(mid, operator)
                &&& evals((depth - 1) as nat, pre, head, mid, operator)
                &&& match operator {
                    Ok(SExpView::Atom(PrimitiveView::Procedure(proc))) => match proc.func {
                        FuncView::Ctx(CodeView::Host(code)) => arity_accepts(
                            proc.arity,
                            clip(elements(tail).len()),
                        ) ==> exists|left: ContextView<F>|
                            {
                                &&& #[trigger] code.ctx_spec(
                                    mid.push_cont(proc.env),
                                    tail,
                                    left,
                                    out,
                                )
                                &&& post == after_call(proc, left)
                            },
                        _ => true,
                    },
                    _ => true,
                }
            },
{
    let inner = (depth - 1) as nat;
    assert(evals_pair(inner, pre, head, tail, post, out));
    let (mid, operator) = choose|mid: ContextView<F>, operator: Outcome<F>|
        {
            &&& #[trigger] reached(mid, operator)
            &&& evals(inner, pre, head, mid, operator)
            &&& match operator {
                Err(e) => post == mid && out == Outcome::<F>::Err(e),
                Ok(op) => evals_operands(inner, mid, op, tail, post, out),
            }
        };
    if let Ok(SExpView::Atom(PrimitiveView::Procedure(proc))) = operator {
        if let FuncView::Ctx(CodeView::Host(code)) = proc.func {
            if arity_accepts(proc.arity, clip(elements(tail).len())) {
                lemma_ctx_procedure_gets_tail(inner, mid, operator->Ok_0, tail, post, out);
            }
        }
    }
}

/// The conditional evaluates its test and one of its two branches: the
/// third argument where the test yields false, the second where it yields
/// anything else. The other branch is not evaluated.
pub proof fn lemma_if_takes_one_branch<F: Callable>(
    depth: nat,
    pre: ContextView<F>,
    test: SExpView<F>,
    then: SExpView<F>,
    otherwise: SExpView<F>,
    post: ContextView<F>,
    out: Outcome<F>,
)
    requires
        form_runs(depth, Form::If, pre, list_of(seq![test, then, otherwise]), post, out),
    ensures
        exists|mid: ContextView<F>, value: Outcome<F>|
            {
                &&& #[trigger] reached(mid, value)
                &&& evals(depth, pre, test, mid, value)
                &&& match value {
                    Err(e) => post == mid && out == Outcome::<F>::Err(e),
                    Ok(v) => if v == SExpView::<F>::Atom(PrimitiveView::Boolean(false)) {
                        evals(depth, mid, otherwise, post, out)
                    } else {
                        evals(depth, mid, then, post, out)
                    },
                }
            },
{
    let items = seq![test, then, otherwise];
    crate::list::lemma_elements_of_list(items);
    let (mid, value) = choose|mid: ContextView<F>, value: Outcome<F>|
        {
            &&& #[trigger] reached(mid, value)
            &&& evals(depth, pre, items[0], mid, value)
            &&& match value {
                Err(e) => post == mid && out == Outcome::<F>::Err(e),
                Ok(v) => evals(
                    depth,
                    mid,
                    if v == SExpView::<F>::Atom(PrimitiveView::Boolean(false)) {
                        items[2]
                    } else {
                        items[1]
                    },
                    post,
                    out,
                ),
            }
        };
    assert(reached(mid, value));
}

/// In a context with the special forms, the name of a form resolves to the
/// form, whatever the user defines or re-binds under that name; and
/// re-binding a name that only the special forms bind fails.
pub proof fn lemma_forms_come_first<F>(ctx: ContextView<F>, form: Form, value: SExpView<F>)
    requires
        ctx.core == core_forms::<F>(),
    ensures
        ctx.get(form_name(form)) == Some(form_value::<F>(form)),
        ctx.define(form_name(form), value).get(form_name(form)) == Some(form_value::<F>(form)),
        ctx.set(form_name(form), value).get(form_name(form)) == Some(form_value::<F>(form)),
        lookup_frames(ctx.user, form_name(form)) is None ==> set_outcome(ctx, form_name(form))
            == Outcome::<F>::Err(ErrorView::UndefinedSymbol { sym: form_name(form) }),
{
    lemma_core_forms::<F>(form);
}

/// Applying a procedure that takes evaluated arguments: the code is handed
/// the tail as it stands, and whether the call succeeds or fails, the
/// context is left as it was: the continuation node that was pushed for
/// the call is popped, and where none was pushed, none is popped.
pub proof fn lemma_pure_application<F: Callable>(
    depth: nat,
    pre: ContextView<F>,
    proc: ProcView<F>,
    tail: SExpView<F>,
    post: ContextView<F>,
    out: Outcome<F>,
)
    requires
        pre.valid(),
        proc.func is Pure,
        arity_accepts(proc.arity, clip(elements(tail).len())),
        applies(depth, pre, pair(SExpView::Atom(PrimitiveView::Procedure(proc)), tail), post, out),
    ensures
        proc.func->Pure_0.pure_spec(tail, out),
        post == pre,
{
    let entered = pre.push_cont(proc.env);
    let left = choose|left: ContextView<F>|
        {
            &&& #[trigger] reached(left, out)
            &&& dispatches(depth, proc, entered, tail, left, out)
            &&& post == after_call(proc, left)
        };
    if proc.env is Some {
        lemma_push_pop_cont(pre, proc.env->Some_0);
    }
}

/// A call leaves the continuation chain as it found it, where the code
/// that was called does: the node that was pushed for the call is popped,
/// and where none was pushed, none is popped.
pub proof fn lemma_call_restores_chain<F>(pre: ContextView<F>, proc: ProcView<F>, left: ContextView<F>)
    requires
        pre.valid(),
        left.cont == pre.push_cont(proc.env).cont,
    ensures
        after_call(proc, left).cont == pre.cont,
{
    if proc.env is Some {
        assert(pre.cont.push(proc.env->Some_0).drop_last() =~= pre.cont);
    }
}

/// A procedure is not called with a number of arguments that its arity
/// refuses: the application fails, and the context is left as it was.
pub proof fn lemma_arity_is_enforced<F: Callable>(
    depth: nat,
    pre: ContextView<F>,
    proc: ProcView<F>,
    tail: SExpView<F>,
    post: ContextView<F>,
    out: Outcome<F>,
)
    requires
        !arity_accepts(proc.arity, clip(elements(tail).len())),
        applies(depth, pre, pair(SExpView::Atom(PrimitiveView::Procedure(proc)), tail), post, out),
    ensures
        post == pre,
        out == Outcome::<F>::Err(
            ErrorView::Arity {
                expected: arity_expected(proc.arity),
                given: clip(elements(tail).len()),
            },
        ),
{
}

/// No code of the host changes the special forms, as far as the host says
/// what its code does.
pub open spec fn code_keeps_core<F: Callable>() -> bool {
    forall|code: F, pre: ContextView<F>, args: SExpView<F>, post: ContextView<F>, out: Outcome<F>|
        #[trigger] code.ctx_spec(pre, args, post, out) ==> post.core == pre.core
}

/// Defining parameters does not change the special forms.
pub proof fn lemma_bound_keeps_core<F>(
    ctx: ContextView<F>,
    params: Seq<Seq<char>>,
    values: Seq<SExpView<F>>,
    count: nat,
)
    ensures
        bound_upto(ctx, params, values, count).core == ctx.core,
    decreases count,
{
    if count > 0 {
        lemma_bound_keeps_core(ctx, params, values, (count - 1) as nat);
    }
}

/// Where no code of the host changes the special forms, no evaluation does.
pub proof fn lemma_eval_keeps_core<F: Callable>(
    depth: nat,
    pre: ContextView<F>,
    expr: SExpView<F>,
    post: ContextView<F>,
    out: Outcome<F>,
)
    requires
        code_keeps_core::<F>(),
        evals(depth, pre, expr, post, out),
    ensures
        post.core == pre.core,
    decreases depth, 0nat, 0nat,
{
    if expr is Pair && depth > 0 {
        let head = *expr->head;
        let tail = *expr->tail;
        let inner = (depth - 1) as nat;
        assert(evals_pair(inner, pre, head, tail, post, out));
        let (mid, operator) = choose|mid: ContextView<F>, operator: Outcome<F>|
            {
                &&& #[trigger] reached(mid, operator)
                &&& evals(inner, pre, head, mid, operator)
                &&& match operator {
                    Err(e) => post == mid && out == Outcome::<F>::Err(e),
                    Ok(op) => evals_operands(inner, mid, op, tail, post, out),
                }
            };
        lemma_eval_keeps_core(inner, pre, head, mid, operator);
        if let Ok(op) = operator {
            lemma_operands_keep_core(inner, mid, op, tail, post, out);
        }
    }
}

/// Where no code of the host changes the special forms, evaluating the
/// operands of an application and applying the operator does not.
proof fn lemma_operands_keep_core<F: Callable>(
    depth: nat,
    pre: ContextView<F>,
    op: SExpView<F>,
    tail: SExpView<F>,
    post: ContextView<F>,
    out: Outcome<F>,
)
    requires
        code_keeps_core::<F>(),
        evals_operands(depth, pre, op, tail, post, out),
    ensures
        post.core == pre.core,
    decreases depth, 5nat, 0nat,
{
    if is_ctx_procedure(op) {
        lemma_apply_keeps_core(depth, pre, pair(op, tail), post, out);
    } else {
        let (mid, args) = choose|mid: ContextView<F>, args: Outcomes<F>|
            {
                &&& #[trigger] reached_each(mid, args)
                &&& evals_each(depth, pre, elements(tail), mid, args)
                &&& match args {
                    Err(e) => post == mid && out == Outcome::<F>::Err(e),
                    Ok(values) => applies(depth, mid, pair(op, list_of(values)), post, out),
                }
            };
        lemma_each_keeps_core(depth, pre, elements(tail), mid, args);
        if let Ok(values) = args {
            lemma_apply_keeps_core(depth, mid, pair(op, list_of(values)), post, out);
        }
    }
}

/// Where no code of the host changes the special forms, evaluating a list
/// of expressions does not.
pub proof fn lemma_each_keeps_core<F: Callable>(
    depth: nat,
    pre: ContextView<F>,
    items: Seq<SExpView<F>>,
    post: ContextView<F>,
    out: Outcomes<F>,
)
    requires
        code_keeps_core::<F>(),
        evals_each(depth, pre, items, post, out),
    ensures
        post.core == pre.core,
    decreases depth, 1nat, items.len(),
{
    if items.len() > 0 {
        let (mid, front) = choose|mid: ContextView<F>, front: Outcomes<F>|
            {
                &&& #[trigger] reached_each(mid, front)
                &&& evals_each(depth, pre, items.drop_last(), mid, front)
                &&& match front {
                    Err(e) => post == mid && out == Outcomes::<F>::Err(e),
                    Ok(values) => exists|last: Outcome<F>|
                        {
                            &&& #[trigger] reached(post, last)
                            &&& evals(depth, mid, items.last(), post, last)
                            &&& out == match last {
                                Ok(value) => Outcomes::<F>::Ok(values.push(value)),
                                Err(e) => Outcomes::<F>::Err(e),
                            }
                        },
                }
            };
        lemma_each_keeps_core(depth, pre, items.drop_last(), mid, front);
        if let Ok(values) = front {
            let last = choose|last: Outcome<F>|
                {
                    &&& #[trigger] reached(post, last)
                    &&& evals(depth, mid, items.last(), post, last)
                    &&& out == match last {
                        Ok(value) => Outcomes::<F>::Ok(values.push(value)),
                        Err(e) => Outcomes::<F>::Err(e),
                    }
                };
            lemma_eval_keeps_core(depth, mid, items.last(), post, last);
        }
    }
}

/// Where no code of the host changes the special forms, no special form
/// does.
pub proof fn lemma_form_keeps_core<F: Callable>(
    depth: nat,
    form: Form,
    pre: ContextView<F>,
    args: SExpView<F>,
    post: ContextView<F>,
    out: Outcome<F>,
)
    requires
        code_keeps_core::<F>(),
        form_runs(depth, form, pre, args, post, out),
    ensures
        post.core == pre.core,
    decreases depth, 2nat, 0nat,
{
    let items = elements(args);
    match form {
        Form::Quote => {},
        Form::Lambda => {},
        Form::Begin => {
            let values = choose|values: Outcomes<F>|
                {
                    &&& #[trigger] reached_each(post, values)
                    &&& evals_each(depth, pre, items, post, values)
                    &&& out == last_value(values)
                };
            lemma_each_keeps_core(depth, pre, items, post, values);
        },
        Form::If => {
            if items.len() >= 3 {
                let (mid, test) = choose|mid: ContextView<F>, test: Outcome<F>|
                    {
                        &&& #[trigger] reached(mid, test)
                        &&& evals(depth, pre, items[0], mid, test)
                        &&& match test {
                            Err(e) => post == mid && out == Outcome::<F>::Err(e),
                            Ok(value) => evals(
                                depth,
                                mid,
                                if value == SExpView::<F>::Atom(PrimitiveView::Boolean(false)) {
                                    items[2]
                                } else {
                                    items[1]
                                },
                                post,
                                out,
                            ),
                        }
                    };
                lemma_eval_keeps_core(depth, pre, items[0], mid, test);
                if let Ok(value) = test {
                    lemma_eval_keeps_core(
                        depth,
                        mid,
                        if value == SExpView::<F>::Atom(PrimitiveView::Boolean(false)) {
                            items[2]
                        } else {
                            items[1]
                        },
                        post,
                        out,
                    );
                }
            }
        },
        Form::Assign => {
            if items.len() >= 2 && is_symbol_value(items[0]) {
                let (mid, value) = choose|mid: ContextView<F>, value: Outcome<F>|
                    {
                        &&& #[trigger] reached(mid, value)
                        &&& evals(depth, pre, items[1], mid, value)
                        &&& match value {
                            Err(e) => post == mid && out == Outcome::<F>::Err(e),
                            Ok(v) => post == mid.set(name_of(items[0]), v) && out == set_outcome(
                                mid,
                                name_of(items[0]),
                            ),
                        }
                    };
                lemma_eval_keeps_core(depth, pre, items[1], mid, value);
            }
        },
        Form::Define => {
            if items.len() >= 2 && is_symbol_value(items[0]) {
                let (mid, value) = choose|mid: ContextView<F>, value: Outcome<F>|
                    {
                        &&& #[trigger] reached(mid, value)
                        &&& evals(depth, pre, items[1], mid, value)
                        &&& match value {
                            Err(e) => post == mid && out == Outcome::<F>::Err(e),
                            Ok(v) => post == mid.define(name_of(items[0]), v) && out == Outcome::<
                                F,
                            >::Ok(undefined()),
                        }
                    };
                lemma_eval_keeps_core(depth, pre, items[1], mid, value);
            }
        },
    }
}

/// Where no code of the host changes the special forms, no body with
/// parameters does.
pub proof fn lemma_lambda_keeps_core<F: Callable>(
    depth: nat,
    lambda: LambdaView<F>,
    pre: ContextView<F>,
    args: SExpView<F>,
    post: ContextView<F>,
    out: Outcome<F>,
)
    requires
        code_keeps_core::<F>(),
        lambda_runs(depth, lambda, pre, args, post, out),
    ensures
        post.core == pre.core,
    decreases depth, 2nat, 0nat,
{
    let (mid, values) = choose|mid: ContextView<F>, values: Outcomes<F>|
        {
            &&& #[trigger] reached_each(mid, values)
            &&& evals_each(depth, pre, elements(args), mid, values)
            &&& match values {
                Err(e) => post == mid && out == Outcome::<F>::Err(e),
                Ok(found) => exists|inner: ContextView<F>, results: Outcomes<F>|
                    {
                        &&& #[trigger] reached_each(inner, results)
                        &&& evals_each(
                            depth,
                            crate::forms::bound(mid.push(), lambda.params, found),
                            lambda.body,
                            inner,
                            results,
                        )
                        &&& post == inner.pop()
                        &&& out == last_value(results)
                    },
            }
        };
    lemma_each_keeps_core(depth, pre, elements(args), mid, values);
    if let Ok(found) = values {
        let entered = crate::forms::bound(mid.push(), lambda.params, found);
        let (inner, results) = choose|inner: ContextView<F>, results: Outcomes<F>|
            {
                &&& #[trigger] reached_each(inner, results)
                &&& evals_each(depth, entered, lambda.body, inner, results)
                &&& post == inner.pop()
                &&& out == last_value(results)
            };
        lemma_bound_keeps_core(
            mid.push(),
            lambda.params,
            found,
            if lambda.params.len() <= found.len() {
                lambda.params.len()
            } else {
                found.len()
            },
        );
        lemma_each_keeps_core(depth, entered, lambda.body, inner, results);
    }
}

/// Where no code of the host changes the special forms, no application
/// does.
pub proof fn lemma_apply_keeps_core<F: Callable>(
    depth: nat,
    pre: ContextView<F>,
    list: SExpView<F>,
    post: ContextView<F>,
    out: Outcome<F>,
)
    requires
        code_keeps_core::<F>(),
        applies(depth, pre, list, post, out),
    ensures
        post.core == pre.core,
    decreases depth, 4nat, 0nat,
{
    if let SExpView::Pair { head, tail } = list {
        match *head {
            SExpView::Atom(PrimitiveView::Procedure(proc)) => {
                if arity_check(proc.arity, clip(elements(*tail).len())) is Ok {
                    let entered = pre.push_cont(proc.env);
                    let left = choose|left: ContextView<F>|
                        {
                            &&& #[trigger] reached(left, out)
                            &&& dispatches(depth, proc, entered, *tail, left, out)
                            &&& post == after_call(proc, left)
                        };
                    match proc.func {
                        FuncView::Pure(code) => {},
                        FuncView::Ctx(CodeView::Host(code)) => {
                            assert(code.ctx_spec(entered, *tail, left, out));
                        },
                        FuncView::Ctx(CodeView::Form(form)) => {
                            lemma_form_keeps_core(depth, form, entered, *tail, left, out);
                        },
                        FuncView::Ctx(CodeView::Lambda(lambda)) => {
                            lemma_lambda_keeps_core(depth, lambda, entered, *tail, left, out);
                        },
                    }
                }
            },
            SExpView::Pair { .. } => {
                let (mid, operator) = choose|mid: ContextView<F>, operator: Outcome<F>|
                    {
                        &&& #[trigger] reached(mid, operator)
                        &&& evals(depth, pre, *head, mid, operator)
                        &&& match operator {
                            Err(e) => post == mid && out == Outcome::<F>::Err(e),
                            Ok(op) => evals(depth, mid, pair(op, *tail), post, out),
                        }
                    };
                lemma_eval_keeps_core(depth, pre, *head, mid, operator);
                if let Ok(op) = operator {
                    lemma_eval_keeps_core(depth, mid, pair(op, *tail), post, out);
                }
            },
            _ => {},
        }
    }
}

} // verus!
