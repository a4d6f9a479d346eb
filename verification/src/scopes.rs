//! The stack of lexical scopes.
//!
//! A scope binds names to values. Names are looked up from the innermost
//! scope outward, up to and including the nearest isolating scope: the body of
//! a constant function does not see the names of its caller.

use crate::error::{IrError, IrErrorKind};
use crate::span::Span;
use crate::value::{entries_view, IrValue, ValueV};
use vstd::prelude::*;
use vstd::string::*;

verus! {

/// Whether a scope hides the scopes below it from name lookup.
#[derive(Clone, Copy, Debug, PartialEq, Eq, Structural)]
pub enum ScopeKind {
    Plain,
    Isolate,
}

/// One scope: its bindings in the order in which their names first came.
/// Each name stands once ([`distinct_keys`]) in a scope that was filled by
/// [`IrScopes::decl`] alone.
#[derive(Debug)]
pub struct Scope {
    pub kind: ScopeKind,
    pub locals: Vec<(String, IrValue)>,
}

/// What a [`Scope`] stands for.
pub struct ScopeV {
    pub kind: ScopeKind,
    pub locals: Seq<(Seq<char>, ValueV)>,
}

impl View for Scope {
    type V = ScopeV;

    open spec fn view(&self) -> ScopeV {
        ScopeV { kind: self.kind, locals: entries_view(self.locals@) }
    }
}

/// The token of an open scope: the depth of the stack before it was opened.
#[derive(Debug)]
pub struct ScopeGuard {
    pub length: usize,
}

/// The first place at or after `from` where `entries` holds `key`.
pub open spec fn find_from<V>(entries: Seq<(Seq<char>, V)>, key: Seq<char>, from: int) -> Option<
    int,
>
    decreases entries.len() - from,
{
    if from < 0 || from >= entries.len() {
        None
    } else if entries[from].0 == key {
        Some(from)
    } else {
        find_from(entries, key, from + 1)
    }
}

/// Each key stands once among the entries.
pub open spec fn distinct_keys<V>(entries: Seq<(Seq<char>, V)>) -> bool {
    forall|i: int, j: int|
        0 <= i < j < entries.len() ==> (#[trigger] entries[i]).0 != (#[trigger] entries[j]).0
}

/// Whether `key` stands among the entries.
pub open spec fn has_key<V>(entries: Seq<(Seq<char>, V)>, key: Seq<char>) -> bool {
    exists|i: int| 0 <= i < entries.len() && (#[trigger] entries[i]).0 == key
}

/// What is found from `from` on is an entry of the key, the first one from
/// there; nothing is found only where no entry from there on has the key.
pub proof fn lemma_find_from<V>(entries: Seq<(Seq<char>, V)>, key: Seq<char>, from: int)
    requires
        0 <= from,
    ensures
        match find_from(entries, key, from) {
            Some(i) => from <= i < entries.len() && entries[i].0 == key && forall|j: int|
                from <= j < i ==> (#[trigger] entries[j]).0 != key,
            None => forall|j: int| from <= j < entries.len() ==> (#[trigger] entries[j]).0 != key,
        },
    decreases entries.len() - from,
{
    if from < entries.len() && entries[from].0 != key {
        lemma_find_from(entries, key, from + 1);
    }
}

/// A key is found exactly where it stands among the entries. Where each
/// key stands once, the entry that is found is the only one of the key.
pub proof fn lemma_find<V>(entries: Seq<(Seq<char>, V)>, key: Seq<char>)
    ensures
        find(entries, key) is Some <==> has_key(entries, key),
        find(entries, key) matches Some(i) ==> 0 <= i < entries.len() && entries[i].0 == key,
        distinct_keys(entries) ==> forall|j: int|
            0 <= j < entries.len() && (#[trigger] entries[j]).0 == key ==> find(entries, key)
                == Some(j),
{
    lemma_find_from(entries, key, 0);
}

/// Binding a key keeps each key once, binds the key to the value, and
/// leaves every other key bound as it was.
pub proof fn lemma_put<V>(entries: Seq<(Seq<char>, V)>, key: Seq<char>, value: V)
    ensures
        distinct_keys(entries) ==> distinct_keys(put(entries, key, value)),
        find(put(entries, key, value), key) matches Some(i) && put(entries, key, value)[i].1
            == value,
        forall|other: Seq<char>|
            other != key ==> (#[trigger] has_key(put(entries, key, value), other) <==> has_key(
                entries,
                other,
            )),
{
    lemma_find_from(entries, key, 0);
    let after = put(entries, key, value);
    lemma_find_from(after, key, 0);
    match find(entries, key) {
        Some(i) => {
            assert(after[i].0 == key);
            assert forall|other: Seq<char>| other != key implies (#[trigger] has_key(
                after,
                other,
            ) <==> has_key(entries, other)) by {
                if has_key(after, other) {
                    let j = choose|j: int| 0 <= j < after.len() && (#[trigger] after[j]).0 == other;
                    assert(entries[j].0 == other);
                }
                if has_key(entries, other) {
                    let j = choose|j: int|
                        0 <= j < entries.len() && (#[trigger] entries[j]).0 == other;
                    assert(after[j].0 == other);
                }
            }
        },
        None => {
            assert(after[entries.len() as int].0 == key);
            assert forall|other: Seq<char>| other != key implies (#[trigger] has_key(
                after,
                other,
            ) <==> has_key(entries, other)) by {
                if has_key(after, other) {
                    let j = choose|j: int| 0 <= j < after.len() && (#[trigger] after[j]).0 == other;
                    assert(entries[j].0 == other);
                }
                if has_key(entries, other) {
                    let j = choose|j: int|
                        0 <= j < entries.len() && (#[trigger] entries[j]).0 == other;
                    assert(after[j].0 == other);
                }
            }
        },
    }
}

/// The first place where `entries` holds `key`.
pub open spec fn find<V>(entries: Seq<(Seq<char>, V)>, key: Seq<char>) -> Option<int> {
    find_from(entries, key, 0)
}

/// `entries` with `key` bound to `value`: in the place of the first entry
/// of that key, or at the end if there is none.
pub open spec fn put<V>(entries: Seq<(Seq<char>, V)>, key: Seq<char>, value: V) -> Seq<
    (Seq<char>, V),
> {
    match find(entries, key) {
        Some(i) => entries.update(i, (key, value)),
        None => entries.push((key, value)),
    }
}

/// The value of `name` as seen from the top `depth` scopes.
pub open spec fn lookup(scopes: Seq<ScopeV>, name: Seq<char>, depth: int) -> Option<ValueV>
    decreases depth,
{
    if depth <= 0 || depth > scopes.len() {
        None
    } else {
        let scope = scopes[depth - 1];
        match find(scope.locals, name) {
            Some(i) => Some(scope.locals[i].1),
            None => if scope.kind == ScopeKind::Isolate {
                None
            } else {
                lookup(scopes, name, depth - 1)
            },
        }
    }
}

/// The scopes with the binding of `name` that is seen from the top `depth`
/// scopes set to `value`, if there is such a binding.
pub open spec fn rebind(scopes: Seq<ScopeV>, name: Seq<char>, value: ValueV, depth: int) -> Option<
    Seq<ScopeV>,
>
    decreases depth,
{
    if depth <= 0 || depth > scopes.len() {
        None
    } else {
        let scope = scopes[depth - 1];
        match find(scope.locals, name) {
            Some(i) => Some(
                scopes.update(
                    depth - 1,
                    ScopeV { kind: scope.kind, locals: scope.locals.update(i, (name, value)) },
                ),
            ),
            None => if scope.kind == ScopeKind::Isolate {
                None
            } else {
                rebind(scopes, name, value, depth - 1)
            },
        }
    }
}

/// The scopes with `name` declared as `value` in the innermost one.
pub open spec fn declare(scopes: Seq<ScopeV>, name: Seq<char>, value: ValueV) -> Seq<ScopeV> {
    let scope = scopes.last();
    scopes.update(
        scopes.len() - 1,
        ScopeV { kind: scope.kind, locals: put(scope.locals, name, value) },
    )
}

/// The scopes with the bindings of the innermost one dropped.
pub open spec fn cleared(scopes: Seq<ScopeV>) -> Seq<ScopeV> {
    scopes.update(scopes.len() - 1, ScopeV { kind: scopes.last().kind, locals: Seq::empty() })
}

/// The place of `key` among `entries`, if it is there.
pub fn position(entries: &Vec<(String, IrValue)>, key: &String) -> (r: Option<usize>)
    ensures
        match find(entries_view(entries@), key@) {
            Some(i) => r == Some(i as usize) && 0 <= i < entries.len(),
            None => r is None,
        },
        r matches Some(i) ==> entries@[i as int].0@ == key@,
        r is Some <==> has_key(entries_view(entries@), key@),
        distinct_keys(entries_view(entries@)) ==> forall|j: int|
            0 <= j < entries@.len() && (#[trigger] entries@[j]).0@ == key@ ==> r == Some(
                j as usize,
            ),
{
    let mut i: usize = 0;
    while i < entries.len()
        invariant
            i <= entries.len(),
            find(entries_view(entries@), key@) == find_from(entries_view(entries@), key@, i as int),
        decreases entries.len() - i,
    {
        if entries[i].0 == *key {
            proof {
                lemma_found(entries@, key@);
            }
            return Some(i);
        }
        i += 1;
    }
    proof {
        lemma_found(entries@, key@);
    }
    None
}

/// What [`lemma_find`] says, of the entries themselves.
proof fn lemma_found(entries: Seq<(String, IrValue)>, key: Seq<char>)
    ensures
        find(entries_view(entries), key) is Some <==> has_key(entries_view(entries), key),
        find(entries_view(entries), key) matches Some(i) ==> 0 <= i < entries.len()
            && entries[i].0@ == key,
        distinct_keys(entries_view(entries)) ==> forall|j: int|
            0 <= j < entries.len() && (#[trigger] entries[j]).0@ == key ==> find(
                entries_view(entries),
                key,
            ) == Some(j),
{
    let view = entries_view(entries);
    lemma_find(view, key);
    if distinct_keys(view) {
        assert forall|j: int|
            0 <= j < entries.len() && (#[trigger] entries[j]).0@ == key implies find(view, key)
            == Some(j) by {
            assert(view[j].0 == key);
        }
    }
}

/// Binds `key` to `value` among `entries`.
pub fn insert(entries: &mut Vec<(String, IrValue)>, key: String, value: IrValue)
    ensures
        entries_view(final(entries)@) == put(entries_view(old(entries)@), key@, value@),
        distinct_keys(entries_view(old(entries)@)) ==> distinct_keys(
            entries_view(final(entries)@),
        ),
{
    proof {
        lemma_put(entries_view(entries@), key@, value@);
    }
    match position(entries, &key) {
        Some(i) => {
            entries.set(i, (key, value));
            assert(entries_view(entries@) =~= put(entries_view(old(entries)@), key@, value@));
        },
        None => {
            entries.push((key, value));
            assert(entries_view(entries@) =~= put(entries_view(old(entries)@), key@, value@));
        },
    }
}

/// The stack of scopes.
#[derive(Debug)]
pub struct IrScopes {
    pub scopes: Vec<Scope>,
}

impl View for IrScopes {
    type V = Seq<ScopeV>;

    open spec fn view(&self) -> Seq<ScopeV> {
        self.scopes@.map_values(|s: Scope| s@)
    }
}

impl IrScopes {
    /// An empty stack.
    pub fn new() -> (scopes: IrScopes)
        ensures
            scopes@ == Seq::<ScopeV>::empty(),
    {
        let scopes = IrScopes { scopes: Vec::new() };
        assert(scopes@ =~= Seq::<ScopeV>::empty());
        scopes
    }

    /// The depth of the stack.
    pub fn len(&self) -> (n: usize)
        ensures
            n == self@.len(),
    {
        self.scopes.len()
    }

    /// Opens a scope of the given kind.
    fn open(&mut self, kind: ScopeKind) -> (guard: ScopeGuard)
        ensures
            guard.length == old(self)@.len(),
            final(self)@ == old(self)@.push(ScopeV { kind, locals: Seq::empty() }),
    {
        let length = self.scopes.len();
        let locals: Vec<(String, IrValue)> = Vec::new();
        assert(entries_view(locals@) =~= Seq::empty());
        self.scopes.push(Scope { kind, locals });
        assert(self@ =~= old(self)@.push(ScopeV { kind, locals: Seq::empty() }));
        ScopeGuard { length }
    }

    /// Opens a scope and hands out its token.
    pub fn push(&mut self) -> (guard: ScopeGuard)
        ensures
            guard.length == old(self)@.len(),
            final(self)@
                == old(self)@.push(ScopeV { kind: ScopeKind::Plain, locals: Seq::empty() }),
    {
        self.open(ScopeKind::Plain)
    }

    /// Opens a scope that hides the scopes below it, and hands out its token.
    pub fn isolate(&mut self) -> (guard: ScopeGuard)
        ensures
            guard.length == old(self)@.len(),
            final(self)@ == old(self)@.push(
                ScopeV { kind: ScopeKind::Isolate, locals: Seq::empty() },
            ),
    {
        self.open(ScopeKind::Isolate)
    }

    /// Closes the innermost scope, which must be the one that `guard` was
    /// handed out for.
    pub fn pop(&mut self, span: Span, guard: ScopeGuard) -> (r: Result<(), IrError>)
        ensures
            old(self)@.len() == 0 ==> r == Err::<(), _>(
                IrError { span, kind: IrErrorKind::MissingScope },
            ) && final(self)@ == old(self)@,
            old(self)@.len() > 0 ==> final(self)@ == old(self)@.drop_last(),
            old(self)@.len() > 0 && old(self)@.len() != guard.length + 1 ==> r == Err::<(), _>(
                IrError { span, kind: IrErrorKind::ScopeMismatch },
            ),
            old(self)@.len() == guard.length + 1 ==> r is Ok,
    {
        if self.scopes.pop().is_none() {
            return Err(IrError::new(span, IrErrorKind::MissingScope));
        }
        assert(self@ =~= old(self)@.drop_last());
        if self.scopes.len() != guard.length {
            return Err(IrError::new(span, IrErrorKind::ScopeMismatch));
        }
        Ok(())
    }

    /// Binds `name` to `value` in the innermost scope. A binding of that name
    /// in that scope is replaced.
    pub fn decl(&mut self, name: &String, value: IrValue, span: Span) -> (r: Result<(), IrError>)
        ensures
            old(self)@.len() == 0 ==> r == Err::<(), _>(
                IrError { span, kind: IrErrorKind::MissingScope },
            ) && final(self)@ == old(self)@,
            old(self)@.len() > 0 ==> r is Ok && final(self)@ == declare(
                old(self)@,
                name@,
                value@,
            ),
    {
        let n = self.scopes.len();
        if n == 0 {
            return Err(IrError::new(span, IrErrorKind::MissingScope));
        }
        insert(&mut self.scopes[n - 1].locals, name.clone(), value);
        assert(self@ =~= declare(old(self)@, name@, value@));
        Ok(())
    }

    /// Drops the bindings of the innermost scope.
    pub fn clear_current(&mut self, span: Span) -> (r: Result<(), IrError>)
        ensures
            old(self)@.len() == 0 ==> r == Err::<(), _>(
                IrError { span, kind: IrErrorKind::MissingScope },
            ) && final(self)@ == old(self)@,
            old(self)@.len() > 0 ==> r is Ok && final(self)@ == cleared(old(self)@),
    {
        let n = self.scopes.len();
        if n == 0 {
            return Err(IrError::new(span, IrErrorKind::MissingScope));
        }
        self.scopes[n - 1].locals.clear();
        assert(entries_view(self.scopes@[n - 1].locals@) =~= Seq::empty());
        assert(self@ =~= cleared(old(self)@));
        Ok(())
    }

    /// The value that `name` is bound to, if it is bound.
    pub fn try_get(&self, name: &String) -> (r: Option<IrValue>)
        ensures
            match lookup(self@, name@, self@.len() as int) {
                Some(value) => r is Some && r->0@ == value,
                None => r is None,
            },
    {
        let mut depth = self.scopes.len();
        while depth > 0
            invariant
                depth <= self.scopes.len(),
                lookup(self@, name@, self@.len() as int) == lookup(self@, name@, depth as int),
            decreases depth,
        {
            let scope = &self.scopes[depth - 1];
            match position(&scope.locals, name) {
                Some(i) => {
                    return Some(scope.locals[i].1.clone());
                },
                None => {
                    if scope.kind == ScopeKind::Isolate {
                        return None;
                    }
                },
            }
            depth -= 1;
        }
        None
    }

    /// The value that `name` is bound to.
    pub fn get_name(&self, name: &String, span: Span) -> (r: Result<IrValue, IrError>)
        ensures
            match lookup(self@, name@, self@.len() as int) {
                Some(value) => r is Ok && r->Ok_0@ == value,
                None => r == Err::<IrValue, _>(IrError { span, kind: IrErrorKind::MissingLocal }),
            },
    {
        match self.try_get(name) {
            Some(value) => Ok(value),
            None => Err(IrError::new(span, IrErrorKind::MissingLocal)),
        }
    }

    /// Sets the binding of `name` to `value`.
    pub fn set_name(&mut self, name: &String, value: IrValue, span: Span) -> (r: Result<
        (),
        IrError,
    >)
        ensures
            match rebind(old(self)@, name@, value@, old(self)@.len() as int) {
                Some(scopes) => r is Ok && final(self)@ == scopes,
                None => r == Err::<(), _>(IrError { span, kind: IrErrorKind::MissingLocal })
                    && final(self)@ == old(self)@,
            },
    {
        let mut depth = self.scopes.len();
        while depth > 0
            invariant
                depth <= self.scopes.len(),
                *self == *old(self),
                rebind(self@, name@, value@, self@.len() as int) == rebind(
                    self@,
                    name@,
                    value@,
                    depth as int,
                ),
            decreases depth,
        {
            let found = position(&self.scopes[depth - 1].locals, name);
            match found {
                Some(i) => {
                    self.scopes[depth - 1].locals.set(i, (name.clone(), value));
                    assert(entries_view(self.scopes@[depth - 1].locals@) =~= entries_view(
                        old(self).scopes@[depth - 1].locals@,
                    ).update(i as int, (name@, value@)));
                    assert(self@ =~= rebind(old(self)@, name@, value@, depth as int)->0);
                    return Ok(());
                },
                None => {
                    if self.scopes[depth - 1].kind == ScopeKind::Isolate {
                        return Err(IrError::new(span, IrErrorKind::MissingLocal));
                    }
                },
            }
            depth -= 1;
        }
        Err(IrError::new(span, IrErrorKind::MissingLocal))
    }
}

} // verus!
