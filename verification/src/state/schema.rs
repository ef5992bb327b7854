//! Immutable state schemas validated from ordered field declarations.
//!
//! Array order is significant: it assigns each field a zero-based index used
//! by the compact payload-slot vector of a state. Names and present
//! descriptions are trimmed; missing, empty, and whitespace-only descriptions
//! all normalize to no description.
use std::sync::Arc;
use vstd::prelude::*;
use crate::text::{trimmed, is_blank, is_blank_text, trim_owned};
use super::error::StateError;
use super::field::{StateFieldSchema, normalized_description};

verus! {

/// One declared field as read from a template.
pub struct FieldDeclaration {
    pub name: String,
    pub description: Option<String>,
}

/// View of an optional owned string.
pub open spec fn opt_view(s: Option<String>) -> Option<Seq<char>> {
    match s {
        Some(d) => Some(d@),
        None => None,
    }
}

/// A declaration as text: its name and optional description.
pub type DeclarationView = (Seq<char>, Option<Seq<char>>);

/// The text of owned declarations.
pub open spec fn declaration_views(decls: Seq<FieldDeclaration>) -> Seq<DeclarationView> {
    decls.map_values(|d: FieldDeclaration| (d.name@, opt_view(d.description)))
}

/// The text of borrowed name/description pairs.
pub open spec fn pair_views(fields: Seq<(&str, Option<&str>)>) -> Seq<DeclarationView> {
    fields.map_values(|p: (&str, Option<&str>)| (p.0@, match p.1 {
        Some(d) => Some(d@),
        None => None,
    }))
}

/// Declaration `i` is acceptable given the declarations before it: its
/// normalized name is nonempty and not already taken.
pub open spec fn declaration_ok(decls: Seq<DeclarationView>, i: int) -> bool {
    &&& !is_blank(decls[i].0)
    &&& forall|j: int| 0 <= j < i ==> trimmed(#[trigger] decls[j].0) != trimmed(decls[i].0)
}

/// Every declaration before `i` is acceptable.
pub open spec fn accepted_before(decls: Seq<DeclarationView>, i: int) -> bool {
    forall|k: int| 0 <= k < i ==> #[trigger] declaration_ok(decls, k)
}

/// Field `f` is the normalized form of declaration `i`.
pub open spec fn field_of(f: StateFieldSchema, decls: Seq<DeclarationView>, i: int) -> bool {
    &&& f.position_spec() == i
    &&& f.name_spec() == trimmed(decls[i].0)
    &&& f.description_spec() == normalized_description(decls[i].1)
}

struct StateLayout {
    source: String,
    fields: Vec<StateFieldSchema>,
}

/// A validated, shareable state layout. Cloning shares one immutable layout.
pub struct SystemStateSchema {
    inner: Arc<StateLayout>,
}

/// `Arc::ptr_eq`: whether both handles point to one allocation, which then
/// holds the same contents.
#[verifier::external_body]
fn same_layout(a: &Arc<StateLayout>, b: &Arc<StateLayout>) -> (r: bool)
    ensures
        r ==> **a == **b,
{
    Arc::ptr_eq(a, b)
}

impl SystemStateSchema {
    /// The path the schema was loaded from.
    pub closed spec fn source_spec(&self) -> Seq<char> {
        self.inner.source@
    }

    /// The validated fields in template order.
    pub closed spec fn fields_spec(&self) -> Seq<StateFieldSchema> {
        self.inner.fields@
    }

    /// Positions match template order and normalized names are unique.
    pub open spec fn wf(&self) -> bool {
        &&& forall|i: int| 0 <= i < self.fields_spec().len()
            ==> (#[trigger] self.fields_spec()[i]).position_spec() == i
        &&& forall|a: int, b: int| 0 <= a < self.fields_spec().len() && 0 <= b < self.fields_spec().len() && a != b
            ==> (#[trigger] self.fields_spec()[a]).name_spec() != (#[trigger] self.fields_spec()[b]).name_spec()
    }

    /// Position of the field named `name`, if declared.
    pub open spec fn lookup(&self, name: Seq<char>) -> Option<int> {
        if exists|i: int| 0 <= i < self.fields_spec().len() && #[trigger] self.fields_spec()[i].name_spec() == name {
            Some(choose|i: int| 0 <= i < self.fields_spec().len() && #[trigger] self.fields_spec()[i].name_spec() == name)
        } else {
            None
        }
    }

    /// Validates ordered declarations and builds the shared layout.
    ///
    /// Declarations are checked in order; the first empty normalized name or
    /// repeated normalized name is reported.
    pub fn from_template(source: String, declarations: Vec<FieldDeclaration>) -> (r: Result<Self, StateError>)
        ensures
            ({
                let ds = declaration_views(declarations@);
                &&& r is Ok <==> accepted_before(ds, ds.len() as int)
                &&& r matches Ok(s) ==> s.wf() && s.source_spec() == source@
                    && s.fields_spec().len() == ds.len()
                    && forall|i: int| 0 <= i < ds.len() ==> field_of(#[trigger] s.fields_spec()[i], ds, i)
                &&& r matches Err(StateError::EmptyFieldName { index }) ==> index < ds.len()
                    && accepted_before(ds, index as int)
                    && is_blank(ds[index as int].0)
                &&& r matches Err(StateError::DuplicateField { field }) ==> exists|i: int| 0 <= i < ds.len()
                    && #[trigger] accepted_before(ds, i)
                    && !is_blank(ds[i].0)
                    && !declaration_ok(ds, i)
                    && field@ == trimmed(ds[i].0)
                &&& r is Err ==> (r matches Err(StateError::EmptyFieldName { .. }) || r matches Err(StateError::DuplicateField { .. }))
            }),
    {
        let ghost ds = declaration_views(declarations@);
        let mut fields: Vec<StateFieldSchema> = Vec::new();
        let mut i: usize = 0;
        while i < declarations.len()
            invariant
                i <= declarations@.len(),
                ds == declaration_views(declarations@),
                fields@.len() == i,
                accepted_before(ds, i as int),
                forall|k: int| 0 <= k < i ==> field_of(#[trigger] fields@[k], ds, k),
            decreases declarations@.len() - i,
        {
            let declaration = &declarations[i];
            assert(ds[i as int].0 == declaration.name@);
            if is_blank_text(declaration.name.as_str()) {
                proof {
                    assert(!declaration_ok(ds, i as int));
                }
                return Err(StateError::EmptyFieldName { index: i });
            }
            let name = trim_owned(declaration.name.as_str());
            let mut k: usize = 0;
            while k < i
                invariant
                    k <= i,
                    i < declarations@.len(),
                    fields@.len() == i,
                    name@ == trimmed(ds[i as int].0),
                    ds == declaration_views(declarations@),
                    forall|m: int| 0 <= m < i ==> field_of(#[trigger] fields@[m], ds, m),
                    forall|m: int| 0 <= m < k ==> trimmed(#[trigger] ds[m].0) != name@,
                    !is_blank(ds[i as int].0),
                    accepted_before(ds, i as int),
                decreases i - k,
            {
                if fields[k].has_name(&name) {
                    proof {
                        assert(field_of(fields@[k as int], ds, k as int));
                        assert(!declaration_ok(ds, i as int));
                        assert(accepted_before(ds, i as int));
                        assert(!accepted_before(ds, ds.len() as int));
                    }
                    return Err(StateError::DuplicateField { field: name });
                }
                k = k + 1;
            }
            let description = match &declaration.description {
                Some(d) => Some(d.as_str()),
                None => None,
            };
            let field = StateFieldSchema::new(i, declaration.name.as_str(), description);
            fields.push(field);
            proof {
                assert(declaration_ok(ds, i as int));
                assert forall|m: int| 0 <= m < i + 1 implies #[trigger] declaration_ok(ds, m) by {
                    if m < i {
                        assert(accepted_before(ds, i as int));
                    }
                }
                assert forall|m: int| 0 <= m < i + 1 implies field_of(#[trigger] fields@[m], ds, m) by {
                    if m == i {
                        assert(opt_view(declarations@[m].description) == match description {
                            Some(d) => Some(d@),
                            None => None::<Seq<char>>,
                        });
                    }
                }
            }
            i = i + 1;
        }
        let schema = SystemStateSchema { inner: Arc::new(StateLayout { source, fields }) };
        proof {
            let fs = schema.fields_spec();
            assert forall|a: int, b: int| 0 <= a < fs.len() && 0 <= b < fs.len() && a != b
                implies (#[trigger] fs[a]).name_spec() != (#[trigger] fs[b]).name_spec() by {
                assert(field_of(fs[a], ds, a));
                assert(field_of(fs[b], ds, b));
                if a < b {
                    assert(declaration_ok(ds, b));
                } else {
                    assert(declaration_ok(ds, a));
                }
            }
            assert forall|a: int| 0 <= a < fs.len() implies (#[trigger] fs[a]).position_spec() == a by {
                assert(field_of(fs[a], ds, a));
            }
        }
        Ok(schema)
    }

    /// Reports whether two handles share one immutable layout. Handles that
    /// share a layout describe the same fields.
    pub fn shares_schema_instance(&self, other: &SystemStateSchema) -> (r: bool)
        ensures
            r ==> *self == *other,
    {
        same_layout(&self.inner, &other.inner)
    }

    /// Returns the path from which this schema was loaded.
    pub fn template_path(&self) -> (r: &str)
        ensures
            r@ == self.source_spec(),
    {
        self.inner.source.as_str()
    }

    /// Returns field descriptions in deterministic template order.
    pub fn field_schemas(&self) -> (r: &[StateFieldSchema])
        ensures
            r@ == self.fields_spec(),
    {
        self.inner.fields.as_slice()
    }

    /// Looks up one field description by normalized name.
    pub fn field_schema(&self, name: &str) -> (r: Option<&StateFieldSchema>)
        requires
            self.wf(),
        ensures
            r is Some <==> self.lookup(name@) is Some,
            r matches Some(f) ==> *f == self.fields_spec()[self.lookup(name@)->0],
    {
        match self.find(name) {
            Some(i) => Some(&self.inner.fields[i]),
            None => None,
        }
    }

    fn find(&self, name: &str) -> (r: Option<usize>)
        requires
            self.wf(),
        ensures
            r is Some <==> self.lookup(name@) is Some,
            r matches Some(i) ==> i == self.lookup(name@)->0,
    {
        let wanted = name.to_owned();
        let mut i: usize = 0;
        while i < self.inner.fields.len()
            invariant
                i <= self.fields_spec().len(),
                self.wf(),
                wanted@ == name@,
                forall|k: int| 0 <= k < i ==> (#[trigger] self.fields_spec()[k]).name_spec() != name@,
            decreases self.fields_spec().len() - i,
        {
            if self.inner.fields[i].has_name(&wanted) {
                proof {
                    let j = choose|j: int| 0 <= j < self.fields_spec().len() && #[trigger] self.fields_spec()[j].name_spec() == name@;
                    if j != i as int {
                        assert(self.fields_spec()[j].name_spec() != self.fields_spec()[i as int].name_spec());
                    }
                }
                return Some(i);
            }
            i = i + 1;
        }
        None
    }

    /// Resolves a declared field name to its payload-slot index.
    pub fn index_of(&self, name: &str) -> (r: Result<usize, StateError>)
        requires
            self.wf(),
        ensures
            r matches Ok(i) ==> self.lookup(name@) == Some(i as int),
            r is Err <==> self.lookup(name@) is None,
            r matches Err(e) ==> e matches StateError::UnknownField { field } && field@ == name@,
    {
        match self.find(name) {
            Some(i) => Ok(i),
            None => Err(StateError::UnknownField { field: name.to_owned() }),
        }
    }

    /// Reports whether the schema declares `name`.
    pub fn contains_field(&self, name: &str) -> (r: bool)
        requires
            self.wf(),
        ensures
            r == self.lookup(name@) is Some,
    {
        self.find(name).is_some()
    }

    /// Returns the number of declared fields.
    pub fn len(&self) -> (r: usize)
        ensures
            r == self.fields_spec().len(),
    {
        self.inner.fields.len()
    }

    /// Reports whether the schema declares no fields.
    pub fn is_empty(&self) -> (r: bool)
        ensures
            r == (self.fields_spec().len() == 0),
    {
        self.inner.fields.len() == 0
    }
}

impl Clone for SystemStateSchema {
    /// Another handle to the same layout.
    fn clone(&self) -> (r: Self)
        ensures
            r == *self,
    {
        SystemStateSchema { inner: crate::handle::share_arc(&self.inner) }
    }
}

/// Reconstructs a schema directly from already-decoded ordered field metadata.
pub fn schema_from_fields(source_path: &str, fields: &[(&str, Option<&str>)]) -> (r: Result<SystemStateSchema, StateError>)
    ensures
        ({
            let ds = pair_views(fields@);
            &&& r is Ok <==> accepted_before(ds, ds.len() as int)
            &&& r matches Ok(s) ==> s.wf() && s.source_spec() == source_path@
                && s.fields_spec().len() == ds.len()
                && forall|i: int| 0 <= i < ds.len() ==> field_of(#[trigger] s.fields_spec()[i], ds, i)
            &&& r matches Err(StateError::EmptyFieldName { index }) ==> index < ds.len()
                && accepted_before(ds, index as int)
                && is_blank(ds[index as int].0)
            &&& r matches Err(StateError::DuplicateField { field }) ==> exists|i: int| 0 <= i < ds.len()
                && #[trigger] accepted_before(ds, i)
                && !is_blank(ds[i].0)
                && !declaration_ok(ds, i)
                && field@ == trimmed(ds[i].0)
        }),
{
    let mut declarations: Vec<FieldDeclaration> = Vec::new();
    let mut i: usize = 0;
    while i < fields.len()
        invariant
            i <= fields@.len(),
            declaration_views(declarations@) == pair_views(fields@).take(i as int),
        decreases fields@.len() - i,
    {
        let (name, description) = fields[i];
        let description = match description {
            Some(d) => Some(d.to_owned()),
            None => None,
        };
        let ghost before = declarations@;
        let declaration = FieldDeclaration { name: name.to_owned(), description };
        let ghost last: DeclarationView = (declaration.name@, opt_view(declaration.description));
        assert(last == pair_views(fields@)[i as int]);
        declarations.push(declaration);
        proof {
            let now = declaration_views(declarations@);
            let want = pair_views(fields@).take(i as int + 1);
            assert(declaration_views(before).len() == before.len());
            assert(before.len() == i);
            assert(now.len() == want.len());
            assert forall|k: int| 0 <= k < now.len() implies now[k] == want[k] by {
                if k < i {
                    assert(declarations@[k] == before[k]);
                    assert(declaration_views(before)[k] == pair_views(fields@).take(i as int)[k]);
                } else {
                    assert(declarations@[k] == declaration);
                }
            }
            assert(now =~= want);
        }
        i = i + 1;
    }
    proof {
        assert(pair_views(fields@).take(fields@.len() as int) =~= pair_views(fields@));
    }
    SystemStateSchema::from_template(source_path.to_owned(), declarations)
}

/// A static provider of one state schema document: a stable identity and
/// the complete JSON template, validated later when a study is built.
#[derive(Clone, Copy, Debug)]
pub struct StateSchemaProvider {
    id: &'static str,
    document: &'static [u8],
}

impl StateSchemaProvider {
    /// The provider identity.
    pub closed spec fn id_spec(self) -> Seq<char> {
        self.id@
    }

    /// The document bytes.
    pub closed spec fn document_spec(self) -> Seq<u8> {
        self.document@
    }

    /// Declares one stable provider identity and its complete JSON template.
    pub fn new(id: &'static str, document: &'static [u8]) -> (r: Self)
        ensures
            r.id_spec() == id@,
            r.document_spec() == document@,
    {
        StateSchemaProvider { id, document }
    }

    /// Returns the stable, versionable provider identity.
    pub fn id(self) -> (r: &'static str)
        ensures
            r@ == self.id_spec(),
    {
        self.id
    }

    /// Returns the borrowed static JSON schema document.
    pub fn document(self) -> (r: &'static [u8])
        ensures
            r@ == self.document_spec(),
    {
        self.document
    }
}

} // verus!
