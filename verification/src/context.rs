//! Execution contexts: named bindings between the tool and an execution
//! target, either the local machine or a remote host. The manager owns the
//! set of contexts and tracks which one is current; switching is a pure
//! metadata update and never touches an operation already dispatched.

use vstd::prelude::*;

use crate::errors::PkgError;
use crate::model::str_eq;

verus! {

/// The execution target a context binds to.
#[derive(Debug)]
pub enum ContextKind {
    /// Commands run on the controlling machine itself.
    Local,
    /// Commands run on a remote host over a secure shell.
    Remote { host: String, port: u16, user: String },
}

/// The mathematical value of a [`ContextKind`].
pub ghost enum ContextKindV {
    Local,
    Remote { host: Seq<char>, port: u16, user: Seq<char> },
}

impl View for ContextKind {
    type V = ContextKindV;

    open spec fn view(&self) -> ContextKindV {
        match self {
            ContextKind::Local => ContextKindV::Local,
            ContextKind::Remote { host, port, user } => ContextKindV::Remote {
                host: host@,
                port: *port,
                user: user@,
            },
        }
    }
}

/// A named binding to an execution target.
#[derive(Debug)]
pub struct Context {
    pub name: String,
    pub kind: ContextKind,
}

/// The mathematical value of a [`Context`].
pub ghost struct ContextV {
    pub name: Seq<char>,
    pub kind: ContextKindV,
}

impl View for Context {
    type V = ContextV;

    open spec fn view(&self) -> ContextV {
        ContextV { name: self.name@, kind: self.kind@ }
    }
}

/// Whether some context of `cs` carries the name `n`.
pub open spec fn ctx_contains(cs: Seq<ContextV>, n: Seq<char>) -> bool {
    exists|i: int| 0 <= i < cs.len() && cs[i].name == n
}

/// The first context at or after position `i` named `n`, if any.
pub open spec fn ctx_lookup_from(cs: Seq<ContextV>, i: int, n: Seq<char>) -> Option<ContextV>
    decreases cs.len() - i,
{
    if i < 0 || i >= cs.len() {
        None::<ContextV>
    } else if cs[i].name == n {
        Some(cs[i])
    } else {
        ctx_lookup_from(cs, i + 1, n)
    }
}

/// The context named `n`, if any.
pub open spec fn ctx_lookup(cs: Seq<ContextV>, n: Seq<char>) -> Option<ContextV> {
    ctx_lookup_from(cs, 0, n)
}

/// `cs` with the first context named `n` removed.
pub open spec fn ctx_remove(cs: Seq<ContextV>, n: Seq<char>) -> Seq<ContextV>
    decreases cs.len(),
{
    if cs.len() == 0 {
        Seq::<ContextV>::empty()
    } else if cs[0].name == n {
        cs.skip(1)
    } else {
        seq![cs[0]] + ctx_remove(cs.skip(1), n)
    }
}

/// The manager of contexts: the known bindings and the name of the one
/// that is current, if any.
pub struct ContextManager {
    pub contexts: Vec<Context>,
    pub current: Option<String>,
}

/// The mathematical value of a [`ContextManager`].
pub ghost struct ContextManagerV {
    pub contexts: Seq<ContextV>,
    pub current: Option<Seq<char>>,
}

impl View for ContextManager {
    type V = ContextManagerV;

    open spec fn view(&self) -> ContextManagerV {
        ContextManagerV {
            contexts: self.contexts@.map_values(|c: Context| c@),
            current: match self.current {
                Some(n) => Some(n@),
                None => None,
            },
        }
    }
}

/// The context an operation dispatched now would target: the context the
/// current name resolves to.
pub open spec fn dispatch_spec(cm: ContextManagerV) -> Option<ContextV> {
    match cm.current {
        None => None,
        Some(n) => ctx_lookup(cm.contexts, n),
    }
}

/// The manager after switching the current context to `n`.
pub open spec fn switch_spec(cm: ContextManagerV, n: Seq<char>) -> ContextManagerV {
    ContextManagerV { contexts: cm.contexts, current: Some(n) }
}

impl ContextManager {
    /// A manager with no contexts and no current one.
    pub fn new() -> (r: Self)
        ensures
            r@.contexts == Seq::<ContextV>::empty(),
            r@.current is None,
    {
        ContextManager { contexts: Vec::new(), current: None }
    }

    /// The position of the first context named `n`, if any.
    fn position_of(&self, n: &str) -> (r: Option<usize>)
        ensures
            match r {
                Some(i) => 0 <= i < self@.contexts.len() && self@.contexts[i as int].name == n@
                    && ctx_lookup(self@.contexts, n@) == Some(self@.contexts[i as int]) && (forall|
                    j: int,
                |
                    0 <= j < i ==> self@.contexts[j].name != n@),
                None => !ctx_contains(self@.contexts, n@) && ctx_lookup(self@.contexts, n@)
                    is None,
            },
    {
        let ghost cs = self@.contexts;
        let mut i: usize = 0;
        while i < self.contexts.len()
            invariant
                0 <= i <= self.contexts.len(),
                cs == self@.contexts,
                cs.len() == self.contexts@.len(),
                forall|j: int| 0 <= j < cs.len() ==> cs[j] == self.contexts@[j]@,
                ctx_lookup(cs, n@) == ctx_lookup_from(cs, i as int, n@),
                forall|j: int| 0 <= j < i ==> cs[j].name != n@,
            decreases self.contexts.len() - i,
        {
            if str_eq(self.contexts[i].name.as_str(), n) {
                assert(ctx_lookup_from(cs, i as int, n@) == Some(cs[i as int]));
                return Some(i);
            }
            assert(ctx_lookup_from(cs, i as int, n@) == ctx_lookup_from(cs, i as int + 1, n@));
            i += 1;
        }
        assert(!ctx_contains(cs, n@));
        None
    }

    /// Creates a context. A context whose name is already taken is not
    /// created: the manager is left unchanged and `false` is returned.
    pub fn create(&mut self, c: Context) -> (r: bool)
        ensures
            r == !ctx_contains(old(self)@.contexts, c@.name),
            r ==> final(self)@.contexts == old(self)@.contexts.push(c@),
            !r ==> final(self)@ == old(self)@,
            final(self)@.current == old(self)@.current,
    {
        match self.position_of(c.name.as_str()) {
            Some(_) => false,
            None => {
                let ghost before = self@.contexts;
                self.contexts.push(c);
                proof {
                    assert(self@.contexts =~= before.push(c@));
                }
                true
            },
        }
    }

    /// Deletes the context named `n`; fails `NotFound` and changes nothing
    /// where none carries that name. Deleting the current context leaves
    /// no context current.
    pub fn delete(&mut self, n: &str) -> (r: Result<(), PkgError>)
        ensures
            match r {
                Ok(()) => ctx_contains(old(self)@.contexts, n@) && final(self)@.contexts
                    == ctx_remove(old(self)@.contexts, n@),
                Err(e) => e == PkgError::NotFound && !ctx_contains(old(self)@.contexts, n@)
                    && final(self)@ == old(self)@,
            },
            r is Ok ==> final(self)@.current == (if old(self)@.current == Some(n@) {
                None::<Seq<char>>
            } else {
                old(self)@.current
            }),
    {
        let i = match self.position_of(n) {
            None => {
                return Err(PkgError::NotFound);
            },
            Some(i) => i,
        };
        let ghost before = self@.contexts;
        self.contexts.remove(i);
        proof {
            lemma_ctx_remove_at(before, n@, i as int);
            assert(self@.contexts =~= before.remove(i as int));
        }
        let was_current = match &self.current {
            None => false,
            Some(cur) => str_eq(cur.as_str(), n),
        };
        if was_current {
            self.current = None;
        }
        Ok(())
    }

    /// The context named `n`; fails `NotFound` where none carries that
    /// name.
    pub fn get(&self, n: &str) -> (r: Result<&Context, PkgError>)
        ensures
            match r {
                Ok(c) => ctx_lookup(self@.contexts, n@) == Some(c@),
                Err(e) => e == PkgError::NotFound && !ctx_contains(self@.contexts, n@),
            },
    {
        match self.position_of(n) {
            None => Err(PkgError::NotFound),
            Some(i) => Ok(&self.contexts[i]),
        }
    }

    /// All contexts, in creation order.
    pub fn list(&self) -> (r: &Vec<Context>)
        ensures
            r@.map_values(|c: Context| c@) == self@.contexts,
    {
        &self.contexts
    }

    /// Replaces the context of the same name with `c`; fails `NotFound`
    /// and changes nothing where none carries that name.
    pub fn update(&mut self, c: Context) -> (r: Result<(), PkgError>)
        ensures
            match r {
                Ok(()) => ctx_contains(old(self)@.contexts, c@.name) && final(self)@.contexts
                    == ctx_remove(old(self)@.contexts, c@.name).push(c@),
                Err(e) => e == PkgError::NotFound && !ctx_contains(old(self)@.contexts, c@.name)
                    && final(self)@ == old(self)@,
            },
            final(self)@.current == old(self)@.current,
    {
        let ghost before = self@;
        match self.delete_keep_current(c.name.as_str()) {
            Err(e) => Err(e),
            Ok(()) => {
                let ghost mid = self@.contexts;
                self.contexts.push(c);
                proof {
                    assert(self@.contexts =~= mid.push(c@));
                }
                Ok(())
            },
        }
    }

    /// Removes the context named `n` without touching which context is
    /// current; fails `NotFound` where none carries that name.
    fn delete_keep_current(&mut self, n: &str) -> (r: Result<(), PkgError>)
        ensures
            match r {
                Ok(()) => ctx_contains(old(self)@.contexts, n@) && final(self)@.contexts
                    == ctx_remove(old(self)@.contexts, n@),
                Err(e) => e == PkgError::NotFound && !ctx_contains(old(self)@.contexts, n@)
                    && final(self)@ == old(self)@,
            },
            final(self)@.current == old(self)@.current,
    {
        let i = match self.position_of(n) {
            None => {
                return Err(PkgError::NotFound);
            },
            Some(i) => i,
        };
        let ghost before = self@.contexts;
        self.contexts.remove(i);
        proof {
            lemma_ctx_remove_at(before, n@, i as int);
            assert(self@.contexts =~= before.remove(i as int));
        }
        Ok(())
    }

    /// Makes the context named `n` current. A pure metadata update: no
    /// context is altered, and no connection is opened. Fails `NotFound`
    /// where none carries that name.
    pub fn switch(&mut self, n: &str) -> (r: Result<(), PkgError>)
        ensures
            final(self)@.contexts == old(self)@.contexts,
            match r {
                Ok(()) => ctx_contains(old(self)@.contexts, n@) && final(self)@ == switch_spec(
                    old(self)@,
                    n@,
                ),
                Err(e) => e == PkgError::NotFound && !ctx_contains(old(self)@.contexts, n@)
                    && final(self)@ == old(self)@,
            },
    {
        match self.position_of(n) {
            None => Err(PkgError::NotFound),
            Some(_) => {
                self.current = Some(n.to_owned());
                Ok(())
            },
        }
    }

    /// The context an operation dispatched now targets, resolved by value:
    /// the caller holds the returned context itself, so a later switch
    /// cannot redirect the operation. Fails `NotFound` where no context is
    /// current.
    pub fn dispatch_target(&self) -> (r: Result<Context, PkgError>)
        ensures
            match r {
                Ok(c) => dispatch_spec(self@) == Some(c@),
                Err(e) => e == PkgError::NotFound && dispatch_spec(self@) is None,
            },
    {
        let cur = match &self.current {
            None => {
                return Err(PkgError::NotFound);
            },
            Some(cur) => cur,
        };
        match self.position_of(cur.as_str()) {
            None => Err(PkgError::NotFound),
            Some(i) => {
                assert(self@.contexts[i as int] == self.contexts@[i as int]@);
                Ok(clone_context(&self.contexts[i]))
            },
        }
    }
}

/// A field-for-field copy of a context, equal in value to the original.
pub fn clone_context(c: &Context) -> (r: Context)
    ensures
        r@ == c@,
{
    Context {
        name: c.name.as_str().to_owned(),
        kind: match &c.kind {
            ContextKind::Local => ContextKind::Local,
            ContextKind::Remote { host, port, user } => ContextKind::Remote {
                host: host.as_str().to_owned(),
                port: *port,
                user: user.as_str().to_owned(),
            },
        },
    }
}

/// Removing the first context named `n`, where it stands at position `i`
/// and no earlier one matches, is removing position `i`.
proof fn lemma_ctx_remove_at(cs: Seq<ContextV>, n: Seq<char>, i: int)
    requires
        0 <= i < cs.len(),
        cs[i].name == n,
        forall|j: int| 0 <= j < i ==> cs[j].name != n,
    ensures
        ctx_remove(cs, n) == cs.remove(i),
    decreases i,
{
    if i == 0 {
        assert(ctx_remove(cs, n) == cs.skip(1));
        assert(cs.skip(1) =~= cs.remove(0));
    } else {
        lemma_ctx_remove_at(cs.skip(1), n, i - 1);
        assert(ctx_remove(cs, n) == seq![cs[0]] + ctx_remove(cs.skip(1), n));
        assert(seq![cs[0]] + cs.skip(1).remove(i - 1) =~= cs.remove(i));
    }
}

/// Switching the current context rebinds only the name that future
/// dispatches resolve; every context, and in particular the target an
/// earlier dispatch already resolved by value, is left exactly as it was.
pub proof fn lemma_switch_preserves_dispatched(cm: ContextManagerV, n: Seq<char>, t: ContextV)
    requires
        dispatch_spec(cm) == Some(t),
    ensures
        switch_spec(cm, n).contexts == cm.contexts,
        ctx_lookup(switch_spec(cm, n).contexts, t.name) == ctx_lookup(cm.contexts, t.name),
{
}

} // verus!
