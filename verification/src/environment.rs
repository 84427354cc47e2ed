use vstd::prelude::*;

use crate::ast::{Literal, LiteralView};
use crate::types::AtomType;

verus! {

/// A declared name.
#[derive(Debug, Clone, PartialEq)]
pub struct Symbol {
    pub name: String,
    pub ty: AtomType,
    pub refers_to_atom: bool,
    pub value: Option<Literal>,
    pub expected: AtomType,
}

/// What a `Symbol` holds.
pub struct SymbolView {
    pub name: Seq<char>,
    pub ty: AtomType,
    pub refers_to_atom: bool,
    pub value: Option<LiteralView>,
    pub expected: AtomType,
}

impl View for Symbol {
    type V = SymbolView;

    open spec fn view(&self) -> SymbolView {
        SymbolView {
            name: self.name@,
            ty: self.ty,
            refers_to_atom: self.refers_to_atom,
            value: match self.value {
                Some(lit) => Some(lit@),
                None => None,
            },
            expected: self.expected,
        }
    }
}

/// One scope: its symbols in the order in which they were declared.
pub type Scope = Seq<SymbolView>;

/// A stack of scopes, the outermost first and the open one last.
pub type Scopes = Seq<Scope>;

/// The views of a list of symbols, in order.
pub open spec fn symbols_view(symbols: Seq<Symbol>) -> Scope {
    Seq::new(symbols.len(), |i: int| symbols[i]@)
}

/// The views of a list of scopes, in order.
pub open spec fn scopes_view(scopes: Seq<Vec<Symbol>>) -> Scopes {
    Seq::new(scopes.len(), |i: int| symbols_view(scopes[i]@))
}

/// Whether a scope declares `name`.
pub open spec fn declares(scope: Scope, name: Seq<char>) -> bool {
    exists|i: int| 0 <= i < scope.len() && (#[trigger] scope[i]).name == name
}

/// Whether no name is declared twice in a scope.
pub open spec fn distinct_names(scope: Scope) -> bool {
    forall|i: int, j: int|
        0 <= i < j < scope.len() ==> (#[trigger] scope[i]).name != (#[trigger] scope[j]).name
}

/// Whether no scope of the stack declares a name twice.
pub open spec fn well_scoped(scopes: Scopes) -> bool {
    forall|k: int| 0 <= k < scopes.len() ==> distinct_names(#[trigger] scopes[k])
}

/// The first symbol of a scope that is called `name`.
pub open spec fn find_in(scope: Scope, name: Seq<char>) -> Option<SymbolView>
    decreases scope.len(),
{
    if scope.len() == 0 {
        None
    } else if scope[0].name == name {
        Some(scope[0])
    } else {
        find_in(scope.skip(1), name)
    }
}

/// The symbol that `name` refers to: the one of the innermost scope that
/// declares it.
pub open spec fn resolve(scopes: Scopes, name: Seq<char>) -> Option<SymbolView>
    decreases scopes.len(),
{
    if scopes.len() == 0 {
        None
    } else {
        match find_in(scopes.last(), name) {
            Some(symbol) => Some(symbol),
            None => resolve(scopes.drop_last(), name),
        }
    }
}

/// The stack after `symbol` was declared in its open scope.
pub open spec fn declare(scopes: Scopes, symbol: SymbolView) -> Scopes {
    scopes.drop_last().push(scopes.last().push(symbol))
}

/// `find_in` finds a symbol exactly when the scope declares the name.
pub proof fn lemma_find_in_declares(scope: Scope, name: Seq<char>)
    ensures
        find_in(scope, name) is Some <==> declares(scope, name),
        find_in(scope, name) matches Some(symbol) ==> symbol.name == name && scope.contains(symbol),
    decreases scope.len(),
{
    if scope.len() == 0 {
    } else if scope[0].name == name {
        assert(scope[0] == scope[0]);
    } else {
        let rest = scope.skip(1);
        lemma_find_in_declares(rest, name);
        if declares(scope, name) {
            let i = choose|i: int| 0 <= i < scope.len() && (#[trigger] scope[i]).name == name;
            assert(rest[i - 1] == scope[i]);
        }
        if declares(rest, name) {
            let i = choose|i: int| 0 <= i < rest.len() && (#[trigger] rest[i]).name == name;
            assert(scope[i + 1] == rest[i]);
        }
        if find_in(rest, name) is Some {
            let symbol = find_in(rest, name)->Some_0;
            let i = choose|i: int| 0 <= i < rest.len() && rest[i] == symbol;
            assert(scope[i + 1] == symbol);
        }
    }
}

proof fn lemma_find_in_push(scope: Scope, symbol: SymbolView, name: Seq<char>)
    ensures
        find_in(scope.push(symbol), name) == if declares(scope, name) {
            find_in(scope, name)
        } else if symbol.name == name {
            Some(symbol)
        } else {
            None
        },
    decreases scope.len(),
{
    let pushed = scope.push(symbol);
    lemma_find_in_declares(scope, name);
    if scope.len() == 0 {
        assert(pushed.skip(1) =~= scope);
        assert(pushed[0] == symbol);
    } else if scope[0].name == name {
        assert(pushed[0] == scope[0]);
    } else {
        let rest = scope.skip(1);
        assert(pushed.skip(1) =~= rest.push(symbol));
        assert(pushed[0] == scope[0]);
        lemma_find_in_push(rest, symbol, name);
        lemma_find_in_declares(rest, name);
    }
}

/// Shadowed lookup. A symbol declared in the open scope, which did not hold
/// its name, is what that name refers to from then on, whatever the
/// enclosing scopes declare; every other name refers to what it did.
pub proof fn lemma_resolve_declared(scopes: Scopes, symbol: SymbolView, name: Seq<char>)
    requires
        scopes.len() >= 1,
        !declares(scopes.last(), symbol.name),
    ensures
        resolve(declare(scopes, symbol), symbol.name) == Some(symbol),
        name != symbol.name ==> resolve(declare(scopes, symbol), name) == resolve(scopes, name),
{
    let after = declare(scopes, symbol);
    assert(after.last() == scopes.last().push(symbol));
    assert(after.drop_last() =~= scopes.drop_last());
    lemma_find_in_push(scopes.last(), symbol, symbol.name);
    lemma_find_in_push(scopes.last(), symbol, name);
    lemma_find_in_declares(scopes.last(), name);
}

/// A scope that was just opened hides nothing, and closing it uncovers what
/// was there: names refer to what they referred to before it was opened.
pub proof fn lemma_resolve_entered(scopes: Scopes, name: Seq<char>)
    ensures
        resolve(scopes.push(Scope::empty()), name) == resolve(scopes, name),
        scopes.push(Scope::empty()).drop_last() == scopes,
{
    let entered = scopes.push(Scope::empty());
    assert(entered.drop_last() =~= scopes);
    assert(find_in(entered.last(), name) is None);
}

/// Why the environment refused an operation.
#[derive(Debug, Clone, Copy, PartialEq, Eq, Structural)]
pub enum EnvError {
    /// The open scope already declares the name.
    Redeclared,
    /// Only the outermost scope is left, and it cannot be closed.
    NoOpenScope,
}

/// Nested symbol scopes. The outermost scope is always there; `enter_scope`
/// opens a scope inside the open one and `exit_scope` closes it again.
pub struct Environment {
    outer: Vec<Vec<Symbol>>,
    symbols: Vec<Symbol>,
}

impl View for Environment {
    type V = Scopes;

    closed spec fn view(&self) -> Scopes {
        scopes_view(self.outer@).push(symbols_view(self.symbols@))
    }
}

impl Environment {
    /// An environment with the outermost scope alone, and nothing declared.
    pub fn new() -> (env: Self)
        ensures
            env@ == seq![Scope::empty()],
    {
        let env = Environment { outer: Vec::new(), symbols: Vec::new() };
        assert(env@ =~~= seq![Scope::empty()]);
        env
    }

    /// There is always an open scope.
    pub proof fn lemma_has_scope(&self)
        ensures
            self@.len() >= 1,
    {
    }

    /// The number of scopes that were entered and not yet left.
    pub fn depth(&self) -> (d: usize)
        ensures
            d == self@.len() - 1,
    {
        self.outer.len()
    }

    /// Declares `symbol` in the open scope, unless that scope already declares
    /// its name: then nothing changes.
    pub fn add(&mut self, symbol: Symbol) -> (r: Result<(), EnvError>)
        ensures
            final(self)@.len() == old(self)@.len(),
            declares(old(self)@.last(), symbol.name@) ==> r == Err::<(), EnvError>(
                EnvError::Redeclared,
            ) && final(self)@ == old(self)@,
            !declares(old(self)@.last(), symbol.name@) ==> r is Ok && final(self)@ == declare(
                old(self)@,
                symbol@,
            ),
            well_scoped(old(self)@) ==> well_scoped(final(self)@),
    {
        let ghost scope = symbols_view(self.symbols@);
        assert(old(self)@.last() == scope);
        let mut i: usize = 0;
        while i < self.symbols.len()
            invariant
                i <= self.symbols.len(),
                *self == *old(self),
                scope == symbols_view(self.symbols@),
                forall|k: int| 0 <= k < i ==> (#[trigger] scope[k]).name != symbol.name@,
            decreases self.symbols.len() - i,
        {
            if self.symbols[i].name == symbol.name {
                assert(scope[i as int].name == symbol.name@);
                return Err(EnvError::Redeclared);
            }
            i += 1;
        }
        self.symbols.push(symbol);
        proof {
            let after = symbols_view(self.symbols@);
            assert(after =~= scope.push(symbol@));
            assert(final(self)@ =~= declare(old(self)@, symbol@));
            if well_scoped(old(self)@) {
                assert(distinct_names(scope));
                assert forall|k: int| 0 <= k < final(self)@.len() implies distinct_names(
                    #[trigger] final(self)@[k],
                ) by {
                    if k < final(self)@.len() - 1 {
                        assert(final(self)@[k] == old(self)@[k]);
                    }
                }
            }
        }
        Ok(())
    }

    /// Opens a scope inside the open one.
    pub fn enter_scope(&mut self)
        ensures
            final(self)@ == old(self)@.push(Scope::empty()),
            well_scoped(old(self)@) ==> well_scoped(final(self)@),
    {
        let mut enclosing: Vec<Symbol> = Vec::new();
        std::mem::swap(&mut enclosing, &mut self.symbols);
        self.outer.push(enclosing);
        proof {
            assert(final(self)@ =~~= old(self)@.push(Scope::empty()));
            if well_scoped(old(self)@) {
                assert forall|k: int| 0 <= k < final(self)@.len() implies distinct_names(
                    #[trigger] final(self)@[k],
                ) by {
                    if k < old(self)@.len() {
                        assert(final(self)@[k] == old(self)@[k]);
                    }
                }
            }
        }
    }

    /// Closes the open scope and forgets its symbols. The outermost scope
    /// stays: with no other scope open nothing changes.
    pub fn exit_scope(&mut self) -> (r: Result<(), EnvError>)
        ensures
            old(self)@.len() > 1 ==> r is Ok && final(self)@ == old(self)@.drop_last(),
            old(self)@.len() <= 1 ==> r == Err::<(), EnvError>(EnvError::NoOpenScope)
                && final(self)@ == old(self)@,
            well_scoped(old(self)@) ==> well_scoped(final(self)@),
    {
        match self.outer.pop() {
            Some(enclosing) => {
                self.symbols = enclosing;
                proof {
                    assert(final(self)@ =~= old(self)@.drop_last());
                    if well_scoped(old(self)@) {
                        assert forall|k: int| 0 <= k < final(self)@.len() implies distinct_names(
                            #[trigger] final(self)@[k],
                        ) by {
                            assert(final(self)@[k] == old(self)@[k]);
                        }
                    }
                }
                Ok(())
            },
            None => Err(EnvError::NoOpenScope),
        }
    }

    /// The symbols of the open scope, in the order in which they were declared.
    pub fn symbols(&self) -> (symbols: &Vec<Symbol>)
        ensures
            symbols_view(symbols@) == self@.last(),
    {
        &self.symbols
    }

    /// The symbol that `name` refers to, if any scope declares it.
    pub fn lookup(&self, name: &String) -> (found: Option<&Symbol>)
        ensures
            match found {
                Some(symbol) => resolve(self@, name@) == Some(symbol@),
                None => resolve(self@, name@) is None,
            },
    {
        match find_symbol(&self.symbols, name) {
            Some(symbol) => Some(symbol),
            None => {
                let mut k: usize = self.outer.len();
                proof {
                    assert(self@.drop_last() =~= scopes_view(self.outer@));
                    assert(scopes_view(self.outer@).take(k as int) =~= scopes_view(self.outer@));
                }
                while k > 0
                    invariant
                        k <= self.outer.len(),
                        resolve(self@, name@) == resolve(
                            scopes_view(self.outer@).take(k as int),
                            name@,
                        ),
                    decreases k,
                {
                    k -= 1;
                    proof {
                        let scopes = scopes_view(self.outer@);
                        assert(scopes.take(k + 1).last() == symbols_view(self.outer[k as int]@));
                        assert(scopes.take(k + 1).drop_last() =~= scopes.take(k as int));
                    }
                    match find_symbol(&self.outer[k], name) {
                        Some(symbol) => {
                            return Some(symbol);
                        },
                        None => {},
                    }
                }
                None
            },
        }
    }
}

/// The first symbol of `symbols` that is called `name`.
fn find_symbol<'a>(symbols: &'a Vec<Symbol>, name: &String) -> (found: Option<&'a Symbol>)
    ensures
        match found {
            Some(symbol) => find_in(symbols_view(symbols@), name@) == Some(symbol@),
            None => find_in(symbols_view(symbols@), name@) is None,
        },
{
    let ghost scope = symbols_view(symbols@);
    let mut i: usize = 0;
    proof {
        assert(scope.skip(0) =~= scope);
    }
    while i < symbols.len()
        invariant
            i <= symbols.len(),
            scope == symbols_view(symbols@),
            find_in(scope, name@) == find_in(scope.skip(i as int), name@),
        decreases symbols.len() - i,
    {
        proof {
            assert(scope.skip(i as int)[0] == scope[i as int]);
            assert(scope.skip(i as int).skip(1) =~= scope.skip(i + 1));
        }
        if symbols[i].name == *name {
            return Some(&symbols[i]);
        }
        i += 1;
    }
    None
}

} // verus!
