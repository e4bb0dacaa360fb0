//! The evaluation context: layered bindings and scope lifecycle.

use crate::error::{Error, ErrorView};
use crate::forms::core_forms;
use crate::sexp::{Env, EnvView, Primitive, PrimitiveView, SExp, SExpView};
use std::rc::Rc;
use vstd::prelude::*;

verus! {

/// How deep applications may nest in a context that was not told otherwise.
///
/// Evaluation is recursive: every level of nesting takes room on the
/// machine's stack. The bound keeps an evaluation that nests without end
/// from running out of it.
pub const DEFAULT_DEPTH: usize = 256;

/// The outcome of an evaluation, as mathematical values.
pub type Outcome<F> = Result<SExpView<F>, ErrorView>;

/// The value of an optional expression.
pub open spec fn option_view<F>(value: Option<SExp<F>>) -> Option<SExpView<F>> {
    match value {
        Some(v) => Some(v@),
        None => None,
    }
}

/// The value of a result.
pub open spec fn outcome<F>(result: Result<SExp<F>, Error>) -> Outcome<F> {
    match result {
        Ok(v) => Ok(v@),
        Err(e) => Err(e@),
    }
}

/// The values of a stack of scopes, outermost first.
pub open spec fn frames_view<F>(frames: Seq<Env<F>>) -> Seq<EnvView<F>> {
    Seq::new(frames.len(), |i: int| frames[i]@)
}

/// The values of the nodes of a continuation chain, the root's child first.
pub open spec fn nodes_view<F>(nodes: Seq<Rc<Env<F>>>) -> Seq<EnvView<F>> {
    Seq::new(nodes.len(), |i: int| nodes[i]@)
}

/// What the innermost scope that binds `key` binds it to.
pub open spec fn lookup_frames<F>(frames: Seq<EnvView<F>>, key: Seq<char>) -> Option<SExpView<F>>
    decreases frames.len(),
{
    if frames.len() == 0 {
        None
    } else if frames.last().contains_key(key) {
        Some(frames.last()[key])
    } else {
        lookup_frames(frames.drop_last(), key)
    }
}

/// The index of the innermost scope that binds `key`.
pub open spec fn binding_frame<F>(frames: Seq<EnvView<F>>, key: Seq<char>) -> Option<int>
    decreases frames.len(),
{
    if frames.len() == 0 {
        None
    } else if frames.last().contains_key(key) {
        Some(frames.len() - 1)
    } else {
        binding_frame(frames.drop_last(), key)
    }
}

/// The bindings of `names` that the scopes hold, each under its own name.
pub open spec fn closure_of<F>(frames: Seq<EnvView<F>>, names: Seq<Seq<char>>) -> EnvView<F> {
    Map::new(
        |key: Seq<char>| names.contains(key) && lookup_frames(frames, key) is Some,
        |key: Seq<char>| lookup_frames(frames, key)->Some_0,
    )
}

/// What re-binding `key` yields: the undefined placeholder where a user
/// scope binds `key`, and an error where none does.
pub open spec fn set_outcome<F>(ctx: ContextView<F>, key: Seq<char>) -> Outcome<F> {
    if lookup_frames(ctx.user, key) is Some {
        Ok(SExpView::Atom(PrimitiveView::Undefined))
    } else {
        Err(ErrorView::UndefinedSymbol { sym: key })
    }
}

/// The names in a list of strings.
pub open spec fn names_of(vars: Seq<&str>) -> Seq<Seq<char>> {
    Seq::new(vars.len(), |i: int| vars[i]@)
}

/// The mathematical value of a [`Context`].
pub struct ContextView<F> {
    /// The special forms: fixed when the context is made.
    pub core: EnvView<F>,
    /// The library bindings.
    pub lang: EnvView<F>,
    /// The user's scopes, outermost first. There is always one.
    pub user: Seq<EnvView<F>>,
    /// The continuation chain from its root to the current node: each node by
    /// the bindings it carries. There is always the root, which carries
    /// nothing.
    pub cont: Seq<EnvView<F>>,
}

impl<F> ContextView<F> {
    /// The value has a user scope and a continuation node, as the value of
    /// every context has.
    pub open spec fn valid(self) -> bool {
        self.user.len() >= 1 && self.cont.len() >= 1
    }

    /// The bindings that the current continuation node carries.
    pub open spec fn current(self) -> EnvView<F> {
        self.cont.last()
    }

    /// What `key` resolves to: the special forms come first, then the current
    /// continuation node, then the user's scopes from the innermost out, then
    /// the library.
    pub open spec fn get(self, key: Seq<char>) -> Option<SExpView<F>> {
        if self.core.contains_key(key) {
            Some(self.core[key])
        } else if self.current().contains_key(key) {
            Some(self.current()[key])
        } else if lookup_frames(self.user, key) is Some {
            lookup_frames(self.user, key)
        } else if self.lang.contains_key(key) {
            Some(self.lang[key])
        } else {
            None
        }
    }

    /// With one more, empty, innermost scope.
    pub open spec fn push(self) -> Self {
        ContextView { user: self.user.push(Map::empty()), ..self }
    }

    /// Without the innermost scope; the last scope is emptied instead.
    pub open spec fn pop(self) -> Self {
        if self.user.len() > 1 {
            ContextView { user: self.user.drop_last(), ..self }
        } else {
            ContextView { user: seq![Map::empty()], ..self }
        }
    }

    /// With `key` bound to `value` in the innermost scope.
    pub open spec fn define(self, key: Seq<char>, value: SExpView<F>) -> Self {
        ContextView {
            user: self.user.update(self.user.len() - 1, self.user.last().insert(key, value)),
            ..self
        }
    }

    /// With `key` rebound to `value` in the innermost scope that binds it;
    /// unchanged where no scope does.
    pub open spec fn set(self, key: Seq<char>, value: SExpView<F>) -> Self {
        match binding_frame(self.user, key) {
            Some(i) => ContextView { user: self.user.update(i, self.user[i].insert(key, value)), ..self },
            None => self,
        }
    }

    /// With a new continuation node that carries `env`; unchanged without one.
    pub open spec fn push_cont(self, env: Option<EnvView<F>>) -> Self {
        match env {
            Some(e) => ContextView { cont: self.cont.push(e), ..self },
            None => self,
        }
    }

    /// With the parent of the current continuation node as the current one;
    /// at the root, with a node that carries nothing.
    pub open spec fn pop_cont(self) -> Self {
        if self.cont.len() > 1 {
            ContextView { cont: self.cont.drop_last(), ..self }
        } else {
            ContextView { cont: seq![Map::empty()], ..self }
        }
    }
}

/// Evaluation context.
///
/// A context keeps four layers of bindings. The special forms (`core`) are
/// fixed when the context is made. The library (`lang`) can be added to at any
/// time. The user's definitions live in a stack of scopes that is never empty.
/// The continuation chain carries the bindings that procedures captured, one
/// node for each call that is under way.
#[derive(Debug)]
pub struct Context<F> {
    /// The special forms.
    core: Env<F>,
    /// The continuation nodes above the root, the current one last. The root
    /// carries nothing and is not stored.
    chain: Vec<Rc<Env<F>>>,
    /// The library: definitions that are visible everywhere and never go
    /// out of scope, but that a user's definition of the same name overrides.
    lang: Env<F>,
    /// The user's outermost scope.
    globals: Env<F>,
    /// The user's nested scopes, the innermost last.
    scopes: Vec<Env<F>>,
    /// How deep applications may still nest.
    depth: usize,
}

impl<F> View for Context<F> {
    type V = ContextView<F>;

    closed spec fn view(&self) -> ContextView<F> {
        ContextView {
            core: self.core@,
            lang: self.lang@,
            user: seq![self.globals@] + frames_view(self.scopes@),
            cont: seq![Map::empty()] + nodes_view(self.chain@),
        }
    }
}

/// The innermost scope of `frames` from index `upto` down that binds `key`
/// decides the lookup.
proof fn lemma_lookup_skips<F>(frames: Seq<EnvView<F>>, key: Seq<char>, upto: int)
    requires
        0 <= upto <= frames.len(),
        forall|j: int| upto <= j < frames.len() ==> !(#[trigger] frames[j]).contains_key(key),
    ensures
        lookup_frames(frames, key) == lookup_frames(frames.take(upto), key),
        binding_frame(frames, key) == binding_frame(frames.take(upto), key),
    decreases frames.len() - upto,
{
    if upto == frames.len() {
        assert(frames.take(upto) =~= frames);
    } else {
        let front = frames.drop_last();
        assert(!frames[frames.len() - 1].contains_key(key));
        lemma_lookup_skips(front, key, upto);
        assert(front.take(upto) =~= frames.take(upto));
    }
}

impl<F> Context<F> {
    /// How deep applications may still nest.
    pub closed spec fn depth(&self) -> nat {
        self.depth as nat
    }

    /// The value of a context has a user scope and a continuation node.
    pub proof fn lemma_valid(&self)
        ensures
            self@.valid(),
    {
    }

    /// A context with the given bindings in the place of the special forms,
    /// an empty library, one empty user scope and the root continuation
    /// node. A host that adds forms of its own starts from
    /// [`Context::forms`].
    pub fn new(core: Env<F>) -> (ctx: Self)
        ensures
            ctx.depth() == DEFAULT_DEPTH,
            ctx@ == (ContextView {
                core: core@,
                lang: Map::empty(),
                user: seq![Map::empty()],
                cont: seq![Map::empty()],
            }),
    {
        let ctx = Context {
            core,
            chain: Vec::new(),
            lang: Env::new(),
            globals: Env::new(),
            scopes: Vec::new(),
            depth: DEFAULT_DEPTH,
        };
        proof {
            assert(ctx@.user =~= seq![Map::empty()]);
            assert(ctx@.cont =~= seq![Map::empty()]);
        }
        ctx
    }

    /// How deep applications may still nest.
    pub fn remaining_depth(&self) -> (depth: usize)
        ensures
            depth == self.depth(),
    {
        self.depth
    }

    /// Sets how deep applications may nest from here on. A host raises the
    /// bound only as far as its stack allows.
    pub fn set_depth(&mut self, depth: usize)
        ensures
            final(self)@ == old(self)@,
            final(self).depth() == depth,
    {
        self.depth = depth;
    }

    /// The library.
    pub fn lang(&self) -> (lang: &Env<F>)
        ensures
            lang@ == self@.lang,
    {
        &self.lang
    }

    /// Adds a definition to the library.
    pub fn define_lang(&mut self, key: &str, value: SExp<F>)
        ensures
            final(self).depth() == old(self).depth(),
            final(self)@ == (ContextView {
                lang: old(self)@.lang.insert(key@, value@),
                ..old(self)@
            }),
    {
        self.lang.insert(key.to_owned(), value);
    }

    /// Adds a new, nested scope.
    pub fn push(&mut self)
        ensures
            final(self)@ == old(self)@.push(),
            final(self).depth() == old(self).depth(),
    {
        self.scopes.push(Env::new());
        proof {
            assert(self@.user =~= old(self)@.user.push(Map::empty()));
        }
    }

    /// Removes the most recently added scope.
    ///
    /// If it is the only one, all definitions are cleared: the scope is
    /// replaced with an empty one.
    pub fn pop(&mut self)
        ensures
            final(self)@ == old(self)@.pop(),
            final(self).depth() == old(self).depth(),
    {
        if self.scopes.len() > 0 {
            self.scopes.pop();
            proof {
                assert(self@.user =~= old(self)@.user.drop_last());
            }
        } else {
            self.globals = Env::new();
            proof {
                assert(self@.user =~= seq![Map::empty()]);
            }
        }
    }

    /// Creates a new definition in the current scope.
    pub fn define(&mut self, key: &str, value: SExp<F>)
        ensures
            final(self)@ == old(self)@.define(key@, value@),
            final(self).depth() == old(self).depth(),
    {
        let nested = self.scopes.len();
        if nested > 0 {
            self.scopes[nested - 1].insert(key.to_owned(), value);
        } else {
            self.globals.insert(key.to_owned(), value);
        }
        proof {
            assert(self@.user =~= old(self)@.user.update(
                old(self)@.user.len() - 1,
                old(self)@.user.last().insert(key@, value@),
            ));
        }
    }

    /// The index, among the nested scopes, of the innermost that binds
    /// `key`.
    fn binding_scope(&self, key: &str) -> (at: Option<usize>)
        ensures
            match at {
                Some(i) => i < self.scopes@.len() && self.scopes@[i as int]@.contains_key(key@)
                    && forall|j: int|
                    i < j < self.scopes@.len() ==> !(#[trigger] self.scopes@[j])@.contains_key(key@),
                None => forall|j: int|
                    0 <= j < self.scopes@.len() ==> !(#[trigger] self.scopes@[j])@.contains_key(key@),
            },
    {
        let mut i: usize = self.scopes.len();
        while i > 0
            invariant
                i <= self.scopes@.len(),
                forall|j: int|
                    i <= j < self.scopes@.len() ==> !(#[trigger] self.scopes@[j])@.contains_key(key@),
            decreases i,
        {
            i -= 1;
            if self.scopes[i].contains_key(key) {
                return Some(i);
            }
        }
        None
    }

    /// What the search of the user's scopes amounts to, given where the
    /// nested scopes stop binding `key`.
    proof fn lemma_user_lookup(&self, key: Seq<char>, upto: int)
        requires
            0 <= upto <= self.scopes@.len(),
            forall|j: int|
                upto <= j < self.scopes@.len() ==> !(#[trigger] self.scopes@[j])@.contains_key(key),
        ensures
            upto > 0 && self.scopes@[upto - 1]@.contains_key(key) ==> {
                &&& lookup_frames(self@.user, key) == Some(self.scopes@[upto - 1]@[key])
                &&& binding_frame(self@.user, key) == Some(upto)
            },
            upto == 0 && self.globals@.contains_key(key) ==> {
                &&& lookup_frames(self@.user, key) == Some(self.globals@[key])
                &&& binding_frame(self@.user, key) == Some(0int)
            },
            upto == 0 && !self.globals@.contains_key(key) ==> {
                &&& lookup_frames(self@.user, key) is None
                &&& binding_frame(self@.user, key) is None
            },
    {
        let frames = self@.user;
        assert forall|j: int| upto + 1 <= j < frames.len() implies !(#[trigger] frames[j]).contains_key(
            key,
        ) by {
            assert(frames[j] == self.scopes@[j - 1]@);
        }
        lemma_lookup_skips(frames, key, upto + 1);
        let front = frames.take(upto + 1);
        assert(front.last() == frames[upto]);
        if upto > 0 {
            assert(frames[upto] == self.scopes@[upto - 1]@);
        } else {
            assert(frames[0] == self.globals@);
            assert(front.drop_last().len() == 0);
            assert(lookup_frames(front.drop_last(), key) is None);
            assert(binding_frame(front.drop_last(), key) is None);
        }
    }

    /// The user's definition of `key`, from the innermost scope that has one.
    pub fn get_user(&self, key: &str) -> (value: Option<SExp<F>>)
        ensures
            option_view(value) == lookup_frames(self@.user, key@),
    {
        match self.binding_scope(key) {
            Some(i) => {
                proof {
                    self.lemma_user_lookup(key@, i + 1);
                }
                match self.scopes[i].get(key) {
                    Some(found) => Some(found.duplicate()),
                    None => None,
                }
            },
            None => {
                proof {
                    self.lemma_user_lookup(key@, 0);
                }
                match self.globals.get(key) {
                    Some(found) => Some(found.duplicate()),
                    None => None,
                }
            },
        }
    }

    /// Gets the definition for a symbol in the execution environment.
    ///
    /// Returns `None` if no definition is found. The layers are searched in
    /// this order: the special forms; the current continuation node; the
    /// user's scopes, from the most recent to the top level; the library.
    pub fn get(&self, key: &str) -> (value: Option<SExp<F>>)
        ensures
            option_view(value) == self@.get(key@),
    {
        if let Some(exp) = self.core.get(key) {
            return Some(exp.duplicate());
        }
        let nodes = self.chain.len();
        if nodes > 0 {
            assert(self@.current() == self.chain@[nodes - 1]@);
            if let Some(exp) = self.chain[nodes - 1].get(key) {
                return Some(exp.duplicate());
            }
        }
        if let Some(exp) = self.get_user(key) {
            return Some(exp);
        }
        if let Some(exp) = self.lang.get(key) {
            return Some(exp.duplicate());
        }
        None
    }

    /// Re-binds an existing definition to a new value.
    ///
    /// Succeeds, with the undefined placeholder, if a user scope defines
    /// `key`: the innermost such scope is updated. Fails if none does, and
    /// then nothing changes.
    pub fn set(&mut self, key: &str, value: SExp<F>) -> (result: Result<SExp<F>, Error>)
        ensures
            final(self).depth() == old(self).depth(),
            final(self)@ == old(self)@.set(key@, value@),
            outcome(result) == set_outcome(old(self)@, key@),
    {
        match self.binding_scope(key) {
            Some(i) => {
                proof {
                    self.lemma_user_lookup(key@, i + 1);
                }
                self.scopes[i].insert(key.to_owned(), value);
                proof {
                    assert(self@.user =~= old(self)@.user.update(
                        i + 1,
                        old(self)@.user[i + 1].insert(key@, value@),
                    ));
                }
            },
            None => {
                proof {
                    self.lemma_user_lookup(key@, 0);
                }
                if self.globals.contains_key(key) {
                    self.globals.insert(key.to_owned(), value);
                    proof {
                        assert(self@.user =~= old(self)@.user.update(
                            0,
                            old(self)@.user[0].insert(key@, value@),
                        ));
                    }
                } else {
                    return Err(Error::UndefinedSymbol { sym: key.to_owned() });
                }
            },
        }
        let done: SExp<F> = SExp::Atom(Primitive::Undefined);
        assert(done@ == SExpView::<F>::Atom(PrimitiveView::Undefined)) by {
            assert(Primitive::<F>::Undefined@ == PrimitiveView::<F>::Undefined);
        }
        Ok(done)
    }

    /// Gets a snapshot of the user's definitions of a list of symbols.
    ///
    /// The snapshot binds each of `vars` that a user scope defines to what
    /// the innermost such scope binds it to, and binds nothing else.
    pub fn close(&self, vars: Vec<&str>) -> (env: Env<F>)
        ensures
            env@ == closure_of(self@.user, names_of(vars@)),
    {
        let mut out: Env<F> = Env::new();
        let mut i: usize = 0;
        while i < vars.len()
            invariant
                i <= vars@.len(),
                out@ == closure_of(self@.user, names_of(vars@).take(i as int)),
            decreases vars@.len() - i,
        {
            let var: &str = vars[i];
            let found = self.get_user(var);
            proof {
                let names = names_of(vars@);
                let before = names.take(i as int);
                let after = names.take(i + 1);
                assert(after =~= before.push(var@));
                assert forall|key: Seq<char>| after.contains(key) <==> (before.contains(key) || key
                    == var@) by {
                    if before.contains(key) {
                        let j = choose|j: int| 0 <= j < before.len() && before[j] == key;
                        assert(after[j] == key);
                    }
                    if key == var@ {
                        assert(after[i as int] == key);
                    }
                }
                if found is Some {
                    assert(closure_of(self@.user, after) =~= closure_of(
                        self@.user,
                        before,
                    ).insert(var@, found->Some_0@));
                } else {
                    assert(closure_of(self@.user, after) =~= closure_of(self@.user, before));
                }
            }
            if let Some(exp) = found {
                out.insert(var.to_owned(), exp);
            }
            i += 1;
        }
        proof {
            assert(names_of(vars@).take(i as int) =~= names_of(vars@));
            assert(closure_of(self@.user, Seq::<Seq<char>>::empty()) =~= EnvView::<F>::empty());
        }
        out
    }

    /// Pushes a new continuation node that carries `new`; does nothing
    /// without one.
    pub fn push_cont(&mut self, new: Option<Rc<Env<F>>>)
        ensures
            final(self).depth() == old(self).depth(),
            final(self)@ == old(self)@.push_cont(
                match new {
                    Some(e) => Some(e@),
                    None => None,
                },
            ),
    {
        if let Some(env) = new {
            self.chain.push(env);
            proof {
                assert(self@.cont =~= old(self)@.cont.push(env@));
            }
        }
    }

    /// Pops the most recent continuation node off the chain. At the root,
    /// the chain starts afresh.
    pub fn pop_cont(&mut self)
        ensures
            final(self).depth() == old(self).depth(),
            final(self)@ == old(self)@.pop_cont(),
    {
        if self.chain.len() > 0 {
            self.chain.pop();
            proof {
                assert(self@.cont =~= old(self)@.cont.drop_last());
            }
        } else {
            proof {
                assert(self@.cont =~= seq![Map::empty()]);
            }
        }
    }
}

impl<F> Default for Context<F> {
    /// A context with the special forms, an empty library, one empty user
    /// scope and the root continuation node.
    fn default() -> (ctx: Self)
        ensures
            ctx.depth() == DEFAULT_DEPTH,
            ctx@ == (ContextView::<F> {
                core: core_forms(),
                lang: Map::empty(),
                user: seq![Map::empty()],
                cont: seq![Map::empty()],
            }),
    {
        Context::new(Context::forms())
    }
}

} // verus!
