//! The typed values an annotation is made of.

use vstd::prelude::*;
use crate::error::{view_option, Diagnostic, DiagnosticModel, ErrorKind};
use crate::span::Span;
use crate::token::{
    duplicate_tokens, tokens_model, Ident, IdentModel, LitStr, LitStrModel, Token, TokenModel,
};

verus! {

/// A `true` or `false` together with the place it was written.
#[derive(Clone, Copy, Debug, PartialEq, Eq)]
pub struct LitBool {
    pub value: bool,
    pub span: Span,
}

/// A path of names such as `a::b::c`.
#[derive(Clone, Debug, PartialEq, Eq)]
pub struct Path {
    pub leading_colon: bool,
    pub segments: Vec<Ident>,
    pub span: Span,
}

/// What a [`Path`] stands for in contracts.
pub struct PathModel {
    pub leading_colon: bool,
    pub segments: Seq<IdentModel>,
    pub span: Span,
}

impl View for Path {
    type V = PathModel;

    open spec fn view(&self) -> PathModel {
        PathModel {
            leading_colon: self.leading_colon,
            segments: self.segments@.map_values(|segment: Ident| segment@),
            span: self.span,
        }
    }
}

impl PathModel {
    /// The names of the segments, without their places.
    pub open spec fn names(self) -> Seq<Seq<char>> {
        self.segments.map_values(|segment: IdentModel| segment.name)
    }
}

/// A piece of code that is stored and handed on as it was written.
#[derive(Clone, Debug, PartialEq, Eq)]
pub struct Expr {
    pub tokens: Vec<Token>,
    pub span: Span,
}

/// What an [`Expr`] stands for in contracts.
pub struct ExprModel {
    pub tokens: Seq<TokenModel>,
    pub span: Span,
}

impl View for Expr {
    type V = ExprModel;

    open spec fn view(&self) -> ExprModel {
        ExprModel { tokens: tokens_model(self.tokens@), span: self.span }
    }
}

/// One value of an annotation.
#[derive(Debug, PartialEq, Eq)]
pub enum Value {
    /// A quoted string.
    StringLiteral(LitStr),
    /// `true` or `false`.
    BoolLiteral(LitBool),
    /// A bare name.
    Identifier(Ident),
    /// Names joined by `::`.
    Path(Path),
    /// Entries in braces.
    Object(Object),
    /// Anything else: code that is not looked into.
    Expression(Expr),
}

/// A key of an object with the value written for it.
#[derive(Debug, PartialEq, Eq)]
pub struct Entry {
    pub key: Ident,
    pub value: Value,
}

/// An ordered mapping from keys to values in which no key occurs twice.
#[derive(Debug, PartialEq, Eq)]
pub struct Object {
    entries: Vec<Entry>,
    span: Span,
}

/// What a [`Value`] stands for in contracts.
pub enum ValueModel {
    StringLiteral(LitStrModel),
    BoolLiteral(LitBool),
    Identifier(IdentModel),
    Path(PathModel),
    Object(ObjectModel),
    Expression(ExprModel),
}

/// What an [`Entry`] stands for in contracts.
pub struct EntryModel {
    pub key: IdentModel,
    pub value: ValueModel,
}

/// What an [`Object`] stands for in contracts: its entries in the order
/// they were declared.
pub struct ObjectModel {
    pub entries: Seq<EntryModel>,
    pub span: Span,
}

/// The model of a value.
pub open spec fn value_model(value: Value) -> ValueModel
    decreases value,
{
    match value {
        Value::StringLiteral(lit) => ValueModel::StringLiteral(lit@),
        Value::BoolLiteral(lit) => ValueModel::BoolLiteral(lit),
        Value::Identifier(ident) => ValueModel::Identifier(ident@),
        Value::Path(path) => ValueModel::Path(path@),
        Value::Object(object) => ValueModel::Object(object_model(object)),
        Value::Expression(expr) => ValueModel::Expression(expr@),
    }
}

/// The model of an object.
pub closed spec fn object_model(object: Object) -> ObjectModel
    decreases object,
{
    ObjectModel {
        entries: Seq::new(
            object.entries@.len(),
            |i: int|
                if 0 <= i < object.entries@.len() {
                    EntryModel {
                        key: object.entries@[i].key@,
                        value: value_model(object.entries@[i].value),
                    }
                } else {
                    arbitrary()
                },
        ),
        span: object.span,
    }
}

impl View for Value {
    type V = ValueModel;

    open spec fn view(&self) -> ValueModel {
        value_model(*self)
    }
}

impl View for Entry {
    type V = EntryModel;

    open spec fn view(&self) -> EntryModel {
        EntryModel { key: self.key@, value: self.value@ }
    }
}

impl View for Object {
    type V = ObjectModel;

    open spec fn view(&self) -> ObjectModel {
        object_model(*self)
    }
}

/// The models of a sequence of entries, in order.
pub open spec fn entries_model(entries: Seq<Entry>) -> Seq<EntryModel> {
    entries.map_values(|entry: Entry| entry@)
}

/// The position of the first entry whose key is `name`, or the number of
/// entries if there is none.
pub open spec fn index_of_key(entries: Seq<EntryModel>, name: Seq<char>) -> int
    decreases entries.len(),
{
    if entries.len() == 0 {
        0
    } else if entries[0].key.name == name {
        0
    } else {
        1 + index_of_key(entries.drop_first(), name)
    }
}

/// No two of the entries have the same key.
pub open spec fn unique_keys(entries: Seq<EntryModel>) -> bool {
    forall|i: int, j: int|
        0 <= i < j < entries.len() ==> entries[i].key.name != entries[j].key.name
}

/// `index_of_key` is the first position at which the key is found.
pub proof fn lemma_index_of_key(entries: Seq<EntryModel>, name: Seq<char>, at: int)
    requires
        0 <= at <= entries.len(),
        forall|j: int| 0 <= j < at ==> entries[j].key.name != name,
        at < entries.len() ==> entries[at].key.name == name,
    ensures
        index_of_key(entries, name) == at,
    decreases at,
{
    if at > 0 {
        let rest = entries.drop_first();
        assert forall|j: int| 0 <= j < at - 1 implies rest[j].key.name != name by {
            assert(rest[j] == entries[j + 1]);
        }
        lemma_index_of_key(rest, name, at - 1);
    }
}

/// What `index_of_key` returns is in range, names the key where it is
/// inside the entries, and no earlier entry has the key.
pub proof fn lemma_index_of_key_range(entries: Seq<EntryModel>, name: Seq<char>)
    ensures
        0 <= index_of_key(entries, name) <= entries.len(),
        index_of_key(entries, name) < entries.len() ==> entries[index_of_key(
            entries,
            name,
        )].key.name == name,
        forall|j: int| 0 <= j < index_of_key(entries, name) ==> entries[j].key.name != name,
    decreases entries.len(),
{
    if entries.len() > 0 && entries[0].key.name != name {
        let rest = entries.drop_first();
        lemma_index_of_key_range(rest, name);
        assert forall|j: int| 0 <= j < index_of_key(entries, name) implies entries[j].key.name
            != name by {
            if j > 0 {
                assert(rest[j - 1] == entries[j]);
            }
        }
    }
}

/// Where a key stands once the entry of another key is taken out.
pub proof fn lemma_index_of_key_remove(entries: Seq<EntryModel>, at: int, name: Seq<char>)
    requires
        0 <= at < entries.len(),
        entries[at].key.name != name,
    ensures
        index_of_key(entries.remove(at), name) == (if index_of_key(entries, name) < at {
            index_of_key(entries, name)
        } else {
            index_of_key(entries, name) - 1
        }),
{
    lemma_index_of_key_range(entries, name);
    let found = index_of_key(entries, name);
    let shorter = entries.remove(at);
    let moved = if found < at {
        found
    } else {
        found - 1
    };
    assert forall|j: int| 0 <= j < moved implies shorter[j].key.name != name by {
        if j < at {
            assert(shorter[j] == entries[j]);
        } else {
            assert(shorter[j] == entries[j + 1]);
        }
    }
    lemma_index_of_key(shorter, name, moved);
}

/// Taking the entry of one key out leaves what is found under another key.
pub proof fn lemma_lookup_without(object: ObjectModel, removed: Seq<char>, name: Seq<char>)
    requires
        removed != name,
    ensures
        object.without(removed).lookup(name) == object.lookup(name),
{
    lemma_index_of_key_range(object.entries, removed);
    lemma_index_of_key_range(object.entries, name);
    if object.contains_key(removed) {
        lemma_index_of_key_remove(object.entries, object.index_of(removed), name);
    }
}

impl ObjectModel {
    /// Where the entry with key `name` stands, or the number of entries.
    pub open spec fn index_of(self, name: Seq<char>) -> int {
        index_of_key(self.entries, name)
    }

    /// Whether an entry has the key `name`.
    pub open spec fn contains_key(self, name: Seq<char>) -> bool {
        self.index_of(name) < self.entries.len()
    }

    /// The value written for `name`.
    pub open spec fn get(self, name: Seq<char>) -> ValueModel
        recommends
            self.contains_key(name),
    {
        self.entries[self.index_of(name)].value
    }

    /// The value written for `name`, if there is one.
    pub open spec fn lookup(self, name: Seq<char>) -> Option<ValueModel> {
        if self.contains_key(name) {
            Some(self.get(name))
        } else {
            None
        }
    }

    /// The keys in the order they were declared.
    pub open spec fn keys(self) -> Seq<Seq<char>> {
        self.entries.map_values(|entry: EntryModel| entry.key.name)
    }

    /// The object with one more entry at its end.
    pub open spec fn push(self, key: IdentModel, value: ValueModel) -> ObjectModel {
        ObjectModel { entries: self.entries.push(EntryModel { key, value }), span: self.span }
    }

    /// The object without the entry for `name`.
    pub open spec fn without(self, name: Seq<char>) -> ObjectModel {
        if self.contains_key(name) {
            ObjectModel { entries: self.entries.remove(self.index_of(name)), span: self.span }
        } else {
            self
        }
    }
}

impl ValueModel {
    /// The place the value was written.
    pub open spec fn span(self) -> Span {
        match self {
            ValueModel::StringLiteral(lit) => lit.span,
            ValueModel::BoolLiteral(lit) => lit.span,
            ValueModel::Identifier(ident) => ident.span,
            ValueModel::Path(path) => path.span,
            ValueModel::Object(object) => object.span,
            ValueModel::Expression(expr) => expr.span,
        }
    }
}

impl Expr {
    /// A copy of this piece of code.
    pub fn duplicate(&self) -> (copy: Expr)
        ensures
            copy@ == self@,
    {
        Expr { tokens: duplicate_tokens(&self.tokens), span: self.span }
    }
}

impl Value {
    /// A copy of this value and of everything inside it.
    pub fn duplicate(&self) -> (copy: Value)
        ensures
            copy@ == self@,
        decreases *self,
    {
        match self {
            Value::StringLiteral(lit) => Value::StringLiteral(lit.duplicate()),
            Value::BoolLiteral(lit) => Value::BoolLiteral(*lit),
            Value::Identifier(ident) => Value::Identifier(ident.duplicate()),
            Value::Path(path) => Value::Path(path.duplicate()),
            Value::Object(object) => Value::Object(object.duplicate()),
            Value::Expression(expr) => Value::Expression(expr.duplicate()),
        }
    }
}

impl Clone for Value {
    fn clone(&self) -> (copy: Value)
        ensures
            copy@ == self@,
    {
        self.duplicate()
    }
}

impl Clone for Entry {
    fn clone(&self) -> (copy: Entry)
        ensures
            copy@ == self@,
    {
        Entry { key: self.key.duplicate(), value: self.value.duplicate() }
    }
}

impl Clone for Object {
    fn clone(&self) -> (copy: Object)
        ensures
            copy@ == self@,
    {
        self.duplicate()
    }
}

impl Object {
    /// A copy of this object and of everything inside it.
    pub fn duplicate(&self) -> (copy: Object)
        ensures
            copy@ == self@,
        decreases *self,
    {
        proof {
            use_type_invariant(self);
        }
        let mut entries: Vec<Entry> = Vec::new();
        let mut at: usize = 0;
        while at < self.entries.len()
            invariant
                at <= self.entries@.len(),
                entries@.len() == at,
                forall|j: int| 0 <= j < at ==> entries@[j]@ == self.entries@[j]@,
            decreases self.entries@.len() - at,
        {
            let entry = &self.entries[at];
            entries.push(Entry { key: entry.key.duplicate(), value: entry.value.duplicate() });
            at += 1;
        }
        proof {
            let copy = Object { entries, span: self.span };
            assert(object_model(copy).entries =~= object_model(*self).entries);
        }
        Object { entries, span: self.span }
    }

    #[verifier::type_invariant]
    spec fn keys_differ(self) -> bool {
        unique_keys(object_model(self).entries)
    }

    /// An object without entries.
    pub fn new(span: Span) -> (object: Object)
        ensures
            object@ == (ObjectModel { entries: Seq::empty(), span }),
    {
        let object = Object { entries: Vec::new(), span };
        assert(object_model(object).entries =~= Seq::empty());
        object
    }

    /// The place the object was written.
    pub fn span(&self) -> (span: Span)
        ensures
            span == self@.span,
    {
        self.span
    }

    /// The number of entries.
    pub fn len(&self) -> (len: usize)
        ensures
            len == self@.entries.len(),
    {
        self.entries.len()
    }

    /// Does nothing when run; tells the caller's proof that no two entries
    /// of an object have the same key.
    pub fn keys_are_unique(&self)
        ensures
            unique_keys(self@.entries),
    {
        proof {
            use_type_invariant(self);
        }
    }

    fn position(&self, name: &str) -> (at: usize)
        ensures
            at == self@.index_of(name@),
            at <= self@.entries.len(),
    {
        let wanted = String::from_str(name);
        let mut at: usize = 0;
        while at < self.entries.len()
            invariant
                at <= self.entries.len(),
                wanted@ == name@,
                forall|j: int| 0 <= j < at ==> self@.entries[j].key.name != name@,
            decreases self.entries.len() - at,
        {
            if self.entries[at].key.name == wanted {
                proof {
                    lemma_index_of_key(self@.entries, name@, at as int);
                }
                return at;
            }
            at += 1;
        }
        proof {
            lemma_index_of_key(self@.entries, name@, at as int);
        }
        at
    }

    /// Whether an entry has the key `name`.
    pub fn contains_key(&self, name: &str) -> (found: bool)
        ensures
            found == self@.contains_key(name@),
    {
        self.position(name) < self.entries.len()
    }

    /// The value written for `name`, if there is one.
    pub fn get(&self, name: &str) -> (found: Option<&Value>)
        ensures
            view_option(found) == self@.lookup(name@),
    {
        let at = self.position(name);
        if at < self.entries.len() {
            Some(&self.entries[at].value)
        } else {
            None
        }
    }

    /// Adds an entry at the end, unless the key is already there.
    ///
    /// A key that is already there is refused with `DuplicateKey`, pointing
    /// at the new key, whatever the value is; the object then stays as it
    /// was.
    pub fn insert(&mut self, key: Ident, value: Value) -> (res: Result<(), Diagnostic>)
        ensures
            old(self)@.contains_key(key@.name) ==> final(self)@ == old(self)@ && res is Err
                && res->Err_0@ == (DiagnosticModel {
                kind: ErrorKind::DuplicateKey,
                span: key@.span,
                name: key@.name,
            }),
            !old(self)@.contains_key(key@.name) ==> final(self)@ == old(self)@.push(key@, value@)
                && res is Ok,
    {
        proof {
            use_type_invariant(&*self);
        }
        let at = self.position(key.name.as_str());
        if at < self.entries.len() {
            return Err(Diagnostic { kind: ErrorKind::DuplicateKey, span: key.span, name: key.name });
        }
        let ghost before = self@;
        let ghost added = EntryModel { key: key@, value: value@ };
        let mut entries: Vec<Entry> = Vec::new();
        std::mem::swap(&mut self.entries, &mut entries);
        entries.push(Entry { key, value });
        proof {
            let after = Object { entries, span: self.span };
            assert(object_model(after).entries =~= before.entries.push(added));
            lemma_index_of_key_range(before.entries, added.key.name);
        }
        self.entries = entries;
        Ok(())
    }

    /// Takes the entry for `name` out of the object and hands back its value.
    pub fn remove(&mut self, name: &str) -> (removed: Option<Value>)
        ensures
            view_option(removed) == old(self)@.lookup(name@),
            final(self)@ == old(self)@.without(name@),
    {
        proof {
            use_type_invariant(&*self);
        }
        let at = self.position(name);
        if at < self.entries.len() {
            let ghost before = self@;
            let mut entries: Vec<Entry> = Vec::new();
            std::mem::swap(&mut self.entries, &mut entries);
            let entry = entries.remove(at);
            proof {
                let after = Object { entries, span: self.span };
                assert(object_model(after).entries =~= before.entries.remove(at as int));
            }
            self.entries = entries;
            Some(entry.value)
        } else {
            None
        }
    }

    /// The entries in the order they were declared, for reading.
    pub fn entries(&self) -> (entries: &Vec<Entry>)
        ensures
            entries_model(entries@) == self@.entries,
    {
        proof {
            assert(entries_model(self.entries@) =~= object_model(*self).entries);
        }
        &self.entries
    }

    /// The keys in the order they were declared.
    pub fn keys(&self) -> (keys: Vec<String>)
        ensures
            keys@.map_values(|key: String| key@) == self@.keys(),
    {
        let mut keys: Vec<String> = Vec::new();
        let mut at: usize = 0;
        while at < self.entries.len()
            invariant
                at <= self.entries@.len(),
                keys@.len() == at,
                forall|j: int| 0 <= j < at ==> keys@[j]@ == self@.entries[j].key.name,
            decreases self.entries@.len() - at,
        {
            keys.push(self.entries[at].key.name.clone());
            at += 1;
        }
        assert(keys@.map_values(|key: String| key@) =~= self@.keys());
        keys
    }

    /// The entries in the order they were declared.
    pub fn into_entries(self) -> (entries: Vec<Entry>)
        ensures
            entries_model(entries@) == self@.entries,
            unique_keys(self@.entries),
    {
        proof {
            use_type_invariant(&self);
            assert(entries_model(self.entries@) =~= object_model(self).entries);
        }
        self.entries
    }
}

} // verus!
