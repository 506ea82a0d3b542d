//! The scope stack: lexical scopes, innermost last, each with its own variable
//! table, and one flat namespace of methods. Variable declarations live in an
//! arena owned by the stack; tables hold their handles.
use vstd::prelude::*;
use crate::errors::SemanticCheckError;
use crate::ir::{MethodDecl, NodeId, ReturnType, Type, VarDecl, VarDecl0};
use crate::rules::{
    declare_var, enclosing_method, find_method, find_var, in_loop, resolve_var, Ctx, Scope,
    ScopeKind, SigM,
};

verus! {

/// A method's name, return type and parameter types.
pub struct MethodSig {
    pub name: String,
    pub return_type: ReturnType,
    pub arg_types: Vec<Type>,
}

impl View for MethodSig {
    type V = SigM;

    open spec fn view(&self) -> SigM {
        SigM { name: self.name@, ret: self.return_type, params: self.arg_types@ }
    }
}

/// The kind of a scope, with the node that it exposes.
#[derive(Debug, Clone, Copy, PartialEq, Eq, Structural)]
pub enum EnvType {
    Global,
    Method(MethodDecl, ReturnType),
    For(NodeId),
    While(NodeId),
    If(NodeId),
    Else(NodeId),
}

pub open spec fn kind_of(t: EnvType) -> ScopeKind {
    match t {
        EnvType::Global => ScopeKind::Global,
        EnvType::Method(m, rt) => ScopeKind::Method(m, rt),
        EnvType::For(_) => ScopeKind::Loop,
        EnvType::While(_) => ScopeKind::Loop,
        EnvType::If(_) => ScopeKind::Branch,
        EnvType::Else(_) => ScopeKind::Branch,
    }
}

/// The nearest enclosing scope of a loop, if any.
pub open spec fn nearest_loop(ts: Seq<EnvType>) -> Option<EnvType>
    decreases ts.len(),
{
    if ts.len() == 0 {
        None
    } else if ts.last() is For || ts.last() is While {
        Some(ts.last())
    } else {
        nearest_loop(ts.drop_last())
    }
}

/// The nearest enclosing `for` scope's node, if any.
pub open spec fn nearest_for(ts: Seq<EnvType>) -> Option<NodeId>
    decreases ts.len(),
{
    if ts.len() == 0 {
        None
    } else if let EnvType::For(n) = ts.last() {
        Some(n)
    } else {
        nearest_for(ts.drop_last())
    }
}

/// The nearest enclosing `while` scope's node, if any.
pub open spec fn nearest_while(ts: Seq<EnvType>) -> Option<NodeId>
    decreases ts.len(),
{
    if ts.len() == 0 {
        None
    } else if let EnvType::While(n) = ts.last() {
        Some(n)
    } else {
        nearest_while(ts.drop_last())
    }
}

/// What a loop or branch node is.
#[derive(Debug, Clone, Copy, PartialEq, Eq, Structural)]
pub enum NodeKind {
    IfElse,
    For,
    While,
}

/// One scope: its type and the handles of the variables declared in it, in order.
pub struct Env {
    pub type_: EnvType,
    pub table: Vec<VarDecl>,
}

impl Env {
    pub fn new(t: EnvType) -> (r: Self)
        ensures
            r.type_ == t,
            r.table@.len() == 0,
    {
        Env { type_: t, table: Vec::new() }
    }
}

/// The scope stack of one analysis, innermost scope last.
pub struct EnvStack {
    pub envs: Vec<Env>,
    pub methods: Vec<MethodSig>,
    /// Arena of every variable declaration made so far.
    pub decls: Vec<VarDecl0>,
    /// Every loop and branch node created so far, by number.
    pub nodes: Vec<NodeKind>,
}

impl EnvStack {
    /// Every handle in a table names a declaration of the arena.
    pub open spec fn wf(&self) -> bool {
        forall|i: int, j: int|
            0 <= i < self.envs@.len() && 0 <= j < self.envs@[i].table@.len() ==> (
            #[trigger] self.envs@[i].table@[j] as int) < self.decls@.len()
    }

    pub open spec fn scope_at(&self, i: int) -> Scope {
        Scope {
            kind: kind_of(self.envs@[i].type_),
            vars: self.envs@[i].table@.map_values(|h: VarDecl| self.decls@[h as int]),
        }
    }

    pub open spec fn scopes(&self) -> Seq<Scope> {
        Seq::new(self.envs@.len(), |i: int| self.scope_at(i))
    }

    pub open spec fn types(&self) -> Seq<EnvType> {
        self.envs@.map_values(|e: Env| e.type_)
    }

    /// The model that the rules speak of.
    pub open spec fn ctx(&self) -> Ctx {
        Ctx { scopes: self.scopes(), methods: self.methods@.map_values(|m: MethodSig| m@) }
    }

    pub fn new() -> (r: Self)
        ensures
            r.wf(),
            r.envs@.len() == 0,
            r.methods@.len() == 0,
            r.decls@.len() == 0,
            r.nodes@.len() == 0,
    {
        EnvStack { envs: Vec::new(), methods: Vec::new(), decls: Vec::new(), nodes: Vec::new() }
    }

    /// Enters a new, empty scope of type `t`.
    pub fn push(&mut self, t: EnvType)
        requires
            old(self).wf(),
        ensures
            final(self).wf(),
            final(self).envs@.len() == old(self).envs@.len() + 1,
            final(self).types() == old(self).types().push(t),
            final(self).ctx() == crate::rules::push_scope(old(self).ctx(), kind_of(t)),
            final(self).decls == old(self).decls,
            final(self).methods == old(self).methods,
            final(self).nodes == old(self).nodes,
    {
        self.envs.push(Env::new(t));
        assert(self.scopes() =~= old(self).scopes().push(Scope { kind: kind_of(t), vars: seq![] }))
            by {
            assert(self.scope_at(self.envs@.len() - 1).vars =~= seq![]);
            assert forall|i: int| 0 <= i < old(self).envs@.len() implies self.scope_at(i)
                == old(self).scope_at(i) by {
                assert(self.envs@[i] == old(self).envs@[i]);
            }
        }
        assert(self.types() =~= old(self).types().push(t));
    }

    /// Leaves the innermost scope.
    pub fn pop(&mut self)
        requires
            old(self).wf(),
            old(self).envs@.len() > 0,
        ensures
            final(self).wf(),
            final(self).envs@.len() == old(self).envs@.len() - 1,
            final(self).types() == old(self).types().drop_last(),
            final(self).ctx() == (Ctx {
                scopes: old(self).ctx().scopes.drop_last(),
                methods: old(self).ctx().methods,
            }),
            final(self).decls == old(self).decls,
            final(self).methods == old(self).methods,
            final(self).nodes == old(self).nodes,
    {
        self.envs.pop();
        assert(self.scopes() =~= old(self).scopes().drop_last()) by {
            assert forall|i: int| 0 <= i < self.envs@.len() implies self.scope_at(i)
                == old(self).scope_at(i) by {
                assert(self.envs@[i] == old(self).envs@[i]);
            }
        }
        assert(self.types() =~= old(self).types().drop_last());
    }

    /// Looks `name` up in the scope at depth `i` alone.
    fn find_in_scope(&self, i: usize, name: &String) -> (r: Option<VarDecl>)
        requires
            self.wf(),
            i < self.envs@.len(),
        ensures
            match find_var(self.scope_at(i as int).vars, name@) {
                None => r is None,
                Some(d) => r is Some && (r->0 as int) < self.decls@.len() && self.decls@[r->0 as int]
                    == d,
            },
    {
        let table = &self.envs[i].table;
        let ghost vars = self.scope_at(i as int).vars;
        let mut j: usize = table.len();
        assert(vars.subrange(0, j as int) =~= vars);
        while j > 0
            invariant
                j <= table@.len(),
                table == self.envs@[i as int].table,
                self.wf(),
                i < self.envs@.len(),
                vars == self.scope_at(i as int).vars,
                find_var(vars, name@) == find_var(vars.subrange(0, j as int), name@),
            decreases j,
        {
            let h = table[j - 1];
            assert(vars.subrange(0, j as int).drop_last() =~= vars.subrange(0, j as int - 1));
            if self.decls[h].id == *name {
                return Some(h);
            }
            j = j - 1;
        }
        assert(vars.subrange(0, 0) =~= Seq::<VarDecl0>::empty());
        None
    }

    /// Declares `v` in the innermost scope and gives back its handle.
    pub fn add_var(&mut self, v: VarDecl0) -> (r: Result<VarDecl, SemanticCheckError>)
        requires
            old(self).wf(),
            old(self).envs@.len() > 0,
        ensures
            final(self).wf(),
            final(self).envs@.len() == old(self).envs@.len(),
            final(self).types() == old(self).types(),
            final(self).methods == old(self).methods,
            final(self).nodes == old(self).nodes,
            match declare_var(old(self).ctx(), v) {
                Ok(c) => r matches Ok(h) && h as int == old(self).decls@.len()
                    && final(self).ctx() == c && final(self).decls@ == old(self).decls@.push(v),
                Err(e) => r == Err::<VarDecl, SemanticCheckError>(e) && final(self).decls
                    == old(self).decls && final(self).ctx() == old(self).ctx(),
            },
    {
        if let Some(n) = v.arr_len {
            if n <= 0 {
                return Err(SemanticCheckError::ArrayLenShouldPositive(v.id));
            }
        }
        let last = self.envs.len() - 1;
        assert(self.scopes().last() == self.scope_at(last as int));
        if self.find_in_scope(last, &v.id).is_some() {
            return Err(SemanticCheckError::DuplicatedVar(v.id));
        }
        let h = self.decls.len();
        self.decls.push(v);
        let mut env = self.envs.pop().unwrap();
        env.table.push(h);
        self.envs.push(env);
        proof {
            let oc = old(self).ctx();
            let ns = oc.scopes.update(
                oc.scopes.len() - 1,
                Scope { kind: oc.scopes.last().kind, vars: oc.scopes.last().vars.push(v) },
            );
            assert forall|i: int| 0 <= i < self.envs@.len() implies self.scopes()[i] == ns[i] by {
                if i < last {
                    assert(self.envs@[i] == old(self).envs@[i]);
                    assert(self.scope_at(i).vars =~= old(self).scope_at(i).vars);
                } else {
                    assert(self.scope_at(i).vars =~= old(self).scope_at(i).vars.push(v));
                }
            }
            assert(self.scopes() =~= ns);
            assert(self.types() =~= old(self).types());
            assert(self.ctx().methods =~= oc.methods);
        }
        Ok(h)
    }

    /// Registers a method in the flat namespace; a name already there is an error,
    /// though the new signature is recorded all the same.
    pub fn add_method(&mut self, m: MethodSig) -> (r: Result<(), SemanticCheckError>)
        requires
            old(self).wf(),
        ensures
            final(self).wf(),
            final(self).envs == old(self).envs,
            final(self).decls == old(self).decls,
            final(self).nodes == old(self).nodes,
            final(self).methods@ == old(self).methods@.push(m),
            final(self).ctx() == (Ctx {
                scopes: old(self).ctx().scopes,
                methods: old(self).ctx().methods.push(m@),
            }),
            r == (if find_method(old(self).ctx().methods, m.name@) is Some {
                Err::<(), SemanticCheckError>(SemanticCheckError::DuplicatedMethod(m.name))
            } else {
                Ok(())
            }),
    {
        let dup = self.get_method_decl(&m.name).is_some();
        let name = m.name.clone();
        self.methods.push(m);
        assert(self.ctx().methods =~= old(self).ctx().methods.push(m@));
        assert(self.scopes() =~= old(self).scopes()) by {
            assert forall|i: int| 0 <= i < self.envs@.len() implies self.scope_at(i)
                == old(self).scope_at(i) by {
                assert(self.scope_at(i).vars =~= old(self).scope_at(i).vars);
            }
        }
        if dup {
            Err(SemanticCheckError::DuplicatedMethod(name))
        } else {
            Ok(())
        }
    }

    /// Resolves a variable, innermost scope first.
    pub fn get_var_decl(&self, name: &String) -> (r: Option<VarDecl>)
        requires
            self.wf(),
        ensures
            match resolve_var(self.ctx().scopes, name@) {
                None => r is None,
                Some(d) => r is Some && (r->0 as int) < self.decls@.len() && self.decls@[r->0 as int]
                    == d,
            },
    {
        let ghost sc = self.scopes();
        let mut i: usize = self.envs.len();
        assert(sc.subrange(0, i as int) =~= sc);
        while i > 0
            invariant
                i <= self.envs@.len(),
                self.wf(),
                sc == self.scopes(),
                resolve_var(sc, name@) == resolve_var(sc.subrange(0, i as int), name@),
            decreases i,
        {
            assert(sc.subrange(0, i as int).drop_last() =~= sc.subrange(0, i as int - 1));
            assert(sc.subrange(0, i as int).last() == self.scope_at(i - 1));
            let found = self.find_in_scope(i - 1, name);
            if found.is_some() {
                return found;
            }
            i = i - 1;
        }
        assert(sc.subrange(0, 0) =~= Seq::<Scope>::empty());
        None
    }

    /// Looks a method up in the flat namespace.
    pub fn get_method_decl(&self, name: &String) -> (r: Option<MethodDecl>)
        ensures
            match find_method(self.ctx().methods, name@) {
                None => r is None,
                Some(k) => r is Some && r->0 as int == k && k < self.methods@.len(),
            },
    {
        proof {
            crate::rules::lemma_find_method_range(self.ctx().methods, name@);
        }
        let ghost ms = self.ctx().methods;
        let mut i: usize = self.methods.len();
        assert(ms.subrange(0, i as int) =~= ms);
        while i > 0
            invariant
                i <= self.methods@.len(),
                ms == self.ctx().methods,
                find_method(ms, name@) == find_method(ms.subrange(0, i as int), name@),
            decreases i,
        {
            assert(ms.subrange(0, i as int).drop_last() =~= ms.subrange(0, i as int - 1));
            if self.methods[i - 1].name == *name {
                return Some(i - 1);
            }
            i = i - 1;
        }
        assert(ms.subrange(0, 0) =~= Seq::<SigM>::empty());
        None
    }

    /// The nearest enclosing method, with its return type.
    pub fn get_cur_scope_method_decl(&self) -> (r: Option<(MethodDecl, ReturnType)>)
        ensures
            r == enclosing_method(self.ctx().scopes),
    {
        let ghost sc = self.scopes();
        let mut i: usize = self.envs.len();
        assert(sc.subrange(0, i as int) =~= sc);
        while i > 0
            invariant
                i <= self.envs@.len(),
                sc == self.scopes(),
                enclosing_method(sc) == enclosing_method(sc.subrange(0, i as int)),
            decreases i,
        {
            assert(sc.subrange(0, i as int).drop_last() =~= sc.subrange(0, i as int - 1));
            assert(sc.subrange(0, i as int).last() == self.scope_at(i - 1));
            if let EnvType::Method(m, rt) = self.envs[i - 1].type_ {
                return Some((m, rt));
            }
            i = i - 1;
        }
        assert(sc.subrange(0, 0) =~= Seq::<Scope>::empty());
        None
    }

    /// The nearest enclosing loop scope, `for` or `while`, skipping branches.
    pub fn get_cur_scope_loop(&self) -> (r: Option<EnvType>)
        ensures
            r == nearest_loop(self.types()),
            r is Some <==> in_loop(self.ctx().scopes),
            r matches Some(t) ==> (t is For || t is While),
    {
        let ghost sc = self.scopes();
        let ghost ts = self.types();
        let mut i: usize = self.envs.len();
        assert(sc.subrange(0, i as int) =~= sc);
        assert(ts.subrange(0, i as int) =~= ts);
        while i > 0
            invariant
                i <= self.envs@.len(),
                sc == self.scopes(),
                ts == self.types(),
                in_loop(sc) == in_loop(sc.subrange(0, i as int)),
                nearest_loop(ts) == nearest_loop(ts.subrange(0, i as int)),
            decreases i,
        {
            assert(sc.subrange(0, i as int).drop_last() =~= sc.subrange(0, i as int - 1));
            assert(sc.subrange(0, i as int).last() == self.scope_at(i - 1));
            assert(ts.subrange(0, i as int).drop_last() =~= ts.subrange(0, i as int - 1));
            let t = self.envs[i - 1].type_;
            match t {
                EnvType::For(_) => return Some(t),
                EnvType::While(_) => return Some(t),
                _ => {},
            }
            i = i - 1;
        }
        assert(sc.subrange(0, 0) =~= Seq::<Scope>::empty());
        assert(ts.subrange(0, 0) =~= Seq::<EnvType>::empty());
        None
    }

    /// The node of the nearest enclosing `for`.
    pub fn get_cur_scope_for(&self) -> (r: Option<NodeId>)
        ensures
            r == nearest_for(self.types()),
    {
        let ghost ts = self.types();
        let mut i: usize = self.envs.len();
        assert(ts.subrange(0, i as int) =~= ts);
        while i > 0
            invariant
                i <= self.envs@.len(),
                ts == self.types(),
                nearest_for(ts) == nearest_for(ts.subrange(0, i as int)),
            decreases i,
        {
            assert(ts.subrange(0, i as int).drop_last() =~= ts.subrange(0, i as int - 1));
            if let EnvType::For(n) = self.envs[i - 1].type_ {
                return Some(n);
            }
            i = i - 1;
        }
        assert(ts.subrange(0, 0) =~= Seq::<EnvType>::empty());
        None
    }

    /// The node of the nearest enclosing `while`.
    pub fn get_cur_scope_while(&self) -> (r: Option<NodeId>)
        ensures
            r == nearest_while(self.types()),
    {
        let ghost ts = self.types();
        let mut i: usize = self.envs.len();
        assert(ts.subrange(0, i as int) =~= ts);
        while i > 0
            invariant
                i <= self.envs@.len(),
                ts == self.types(),
                nearest_while(ts) == nearest_while(ts.subrange(0, i as int)),
            decreases i,
        {
            assert(ts.subrange(0, i as int).drop_last() =~= ts.subrange(0, i as int - 1));
            if let EnvType::While(n) = self.envs[i - 1].type_ {
                return Some(n);
            }
            i = i - 1;
        }
        assert(ts.subrange(0, 0) =~= Seq::<EnvType>::empty());
        None
    }

    /// Creates a loop or branch node and gives back its number.
    pub fn new_node(&mut self, k: NodeKind) -> (r: NodeId)
        requires
            old(self).wf(),
        ensures
            final(self).wf(),
            r == old(self).nodes@.len(),
            final(self).nodes@ == old(self).nodes@.push(k),
            final(self).envs == old(self).envs,
            final(self).decls == old(self).decls,
            final(self).methods == old(self).methods,
            final(self).ctx() == old(self).ctx(),
            final(self).types() == old(self).types(),
    {
        let n = self.nodes.len();
        self.nodes.push(k);
        assert(self.scopes() =~= old(self).scopes()) by {
            assert forall|i: int| 0 <= i < self.envs@.len() implies self.scope_at(i)
                == old(self).scope_at(i) by {
                assert(self.scope_at(i).vars =~= old(self).scope_at(i).vars);
            }
        }
        assert(self.ctx().methods =~= old(self).ctx().methods);
        assert(self.types() =~= old(self).types());
        n
    }
}

} // verus!
