//! Where the names of labels come from: the sources, and the strings that
//! macros store.

use crate::ast::{Kind, Label, LitSource, Token};
use crate::literal::{ResolveError, ResolveErrorKind};
use crate::span::Span;
use crate::text::string_of;
use vstd::prelude::*;
use vstd::string::*;

verus! {

/// The strings that macros have stored, by id.
#[derive(Debug)]
pub struct Storage {
    pub strings: Vec<String>,
}

impl Storage {
    /// A storage without strings.
    pub fn new() -> (storage: Storage)
        ensures
            storage.strings@.len() == 0,
    {
        Storage { strings: Vec::new() }
    }

    /// Stores `string` and gives the id to find it by.
    pub fn insert_str(&mut self, string: &str) -> (id: usize)
        ensures
            id == old(self).strings@.len(),
            final(self).strings@.len() == old(self).strings@.len() + 1,
            final(self).strings@[id as int]@ == string@,
            forall|i: int|
                0 <= i < old(self).strings@.len() ==> final(self).strings@[i]
                    == old(self).strings@[i],
    {
        let id = self.strings.len();
        self.strings.push(String::from_str(string));
        id
    }

    /// The string stored under `id`.
    pub fn get_string(&self, id: usize) -> (r: Option<&String>)
        ensures
            id < self.strings@.len() ==> r == Some(&self.strings@[id as int]),
            id >= self.strings@.len() ==> r is None,
    {
        if id < self.strings.len() {
            Some(&self.strings[id])
        } else {
            None
        }
    }
}

/// The characters of the sources, by id.
#[derive(Debug)]
pub struct Sources {
    pub sources: Vec<Vec<char>>,
}

/// The text of the source `id` at `span`, if the source exists and the span
/// lies in it.
pub open spec fn source_text(sources: Seq<Vec<char>>, id: usize, span: Span) -> Option<Seq<char>> {
    if id < sources.len() && span.start <= span.end <= sources[id as int]@.len() {
        Some(sources[id as int]@.subrange(span.start as int, span.end as int))
    } else {
        None
    }
}

impl Sources {
    /// No sources.
    pub fn new() -> (sources: Sources)
        ensures
            sources.sources@.len() == 0,
    {
        Sources { sources: Vec::new() }
    }

    /// Adds a source and gives the id to find it by.
    pub fn insert(&mut self, chars: Vec<char>) -> (id: usize)
        ensures
            id == old(self).sources@.len(),
            final(self).sources@ == old(self).sources@.push(chars),
    {
        let id = self.sources.len();
        self.sources.push(chars);
        id
    }

    /// The text of the source `id` at `span`.
    pub fn source(&self, id: usize, span: Span) -> (r: Option<String>)
        ensures
            match source_text(self.sources@, id, span) {
                Some(text) => r is Some && r->0@ == text,
                None => r is None,
            },
    {
        if id >= self.sources.len() {
            return None;
        }
        let chars = &self.sources[id];
        let start = span.start as usize;
        let end = span.end as usize;
        if start > end || end > chars.len() {
            return None;
        }
        Some(string_of(chars, start, end))
    }
}

/// What a macro knows while it runs: its place in the source, and the
/// storage for the strings it makes.
#[derive(Debug)]
pub struct MacroContext {
    pub macro_span: Span,
    pub storage: Storage,
}

/// The name that a label stands for, without its leading `'`.
pub open spec fn label_name(label: Label, strings: Seq<String>, sources: Seq<Vec<char>>) -> Result<
    Seq<char>,
    ResolveError,
> {
    match label.source {
        LitSource::Text(source_id) => match source_text(
            sources,
            source_id,
            label.token.span.spec_trim_start(1),
        ) {
            Some(text) => Ok(text),
            None => Err(ResolveError { span: label.token.span, kind: ResolveErrorKind::BadSlice }),
        },
        LitSource::Synthetic(id) => if id < strings.len() {
            Ok(strings[id as int]@)
        } else {
            Err(
                ResolveError {
                    span: label.token.span,
                    kind: ResolveErrorKind::BadSyntheticId { id },
                },
            )
        },
    }
}

impl Label {
    /// Construct a new label from the given string. The string should be
    /// specified *without* the leading `'`, so `"foo"` instead of `"'foo"`.
    ///
    /// The label is placed at the span of the macro that makes it.
    pub fn new(ctx: &mut MacroContext, label: &str) -> (r: Label)
        ensures
            final(ctx).macro_span == old(ctx).macro_span,
            r.token.span == old(ctx).macro_span,
            r.source == LitSource::Synthetic(old(ctx).storage.strings@.len() as usize),
            r.token.kind == Kind::Label(r.source),
            forall|sources: Seq<Vec<char>>|
                #[trigger] label_name(r, final(ctx).storage.strings@, sources) == Ok::<
                    Seq<char>,
                    ResolveError,
                >(label@),
    {
        Label::new_with(label, ctx.macro_span, &mut ctx.storage)
    }

    /// Construct a new label from the given string. The string should be
    /// specified *without* the leading `'`, so `"foo"` instead of `"'foo"`.
    ///
    /// The string is stored in `storage`, and the label is placed at `span`.
    pub fn new_with(label: &str, span: Span, storage: &mut Storage) -> (r: Label)
        ensures
            r.token.span == span,
            r.source == LitSource::Synthetic(old(storage).strings@.len() as usize),
            r.token.kind == Kind::Label(r.source),
            final(storage).strings@.len() == old(storage).strings@.len() + 1,
            forall|i: int|
                0 <= i < old(storage).strings@.len() ==> final(storage).strings@[i]
                    == old(storage).strings@[i],
            forall|sources: Seq<Vec<char>>|
                #[trigger] label_name(r, final(storage).strings@, sources) == Ok::<
                    Seq<char>,
                    ResolveError,
                >(label@),
    {
        let id = storage.insert_str(label);
        let source = LitSource::Synthetic(id);
        Label { token: Token { span, kind: Kind::Label(source) }, source }
    }

    /// The name of the label, without its leading `'`: read from its
    /// source, or from the storage.
    pub fn resolve(&self, storage: &Storage, sources: &Sources) -> (r: Result<String, ResolveError>)
        ensures
            match label_name(*self, storage.strings@, sources.sources@) {
                Ok(name) => r is Ok && r->Ok_0@ == name,
                Err(error) => r == Err::<String, _>(error),
            },
    {
        let span = self.token.span;
        match self.source {
            LitSource::Text(source_id) => match sources.source(source_id, span.trim_start(1)) {
                Some(ident) => Ok(ident),
                None => Err(ResolveError { span, kind: ResolveErrorKind::BadSlice }),
            },
            LitSource::Synthetic(id) => match storage.get_string(id) {
                Some(ident) => Ok(ident.clone()),
                None => Err(ResolveError { span, kind: ResolveErrorKind::BadSyntheticId { id } }),
            },
        }
    }
}

} // verus!
