//! Layout of the model structs that the component schemas generate.

use vstd::prelude::*;

use crate::document::{entry_keys, find_key, first_index};
use crate::schema::{
    fields_view, typed_views, Field, SpecField, SpecTypedSchema, TypedSchema,
};
use crate::text::{last_name_segment, last_segment};
use crate::types::{Primative, Type};

verus! {

/// A field of a generated model struct: `ident: typ`, or
/// `ident: Option<typ>` when it is optional.
#[derive(Debug)]
pub struct ModelField {
    pub ident: String,
    pub typ: Primative,
    pub optional: bool,
}

/// A generated model struct.
#[derive(Debug)]
pub struct Model {
    pub name: String,
    pub fields: Vec<ModelField>,
}

/// A `ModelField` with its name as characters.
pub struct SpecModelField {
    pub ident: Seq<char>,
    pub typ: Primative,
    pub optional: bool,
}

/// A `Model` with its names as characters.
pub struct SpecModel {
    pub name: Seq<char>,
    pub fields: Seq<SpecModelField>,
}

impl View for ModelField {
    type V = SpecModelField;

    open spec fn view(&self) -> SpecModelField {
        SpecModelField { ident: self.ident@, typ: self.typ, optional: self.optional }
    }
}

/// Model fields as `SpecModelField`s.
pub open spec fn model_fields_view(fields: Seq<ModelField>) -> Seq<SpecModelField> {
    fields.map_values(|f: ModelField| f@)
}

impl View for Model {
    type V = SpecModel;

    open spec fn view(&self) -> SpecModel {
        SpecModel { name: self.name@, fields: model_fields_view(self.fields@) }
    }
}

/// Models as `SpecModel`s.
pub open spec fn models_view(models: Seq<Model>) -> Seq<SpecModel> {
    models.map_values(|m: Model| m@)
}

/// Named typed schemas with their names as characters.
pub open spec fn components_view(comps: Seq<(String, TypedSchema)>) -> Seq<(Seq<char>, SpecTypedSchema)> {
    comps.map_values(|e: (String, TypedSchema)| (e.0@, e.1@))
}

/// The names of named typed schemas.
pub open spec fn component_keys(comps: Seq<(Seq<char>, SpecTypedSchema)>) -> Seq<Seq<char>> {
    comps.map_values(|e: (Seq<char>, SpecTypedSchema)| e.0)
}

/// The model fields of an object's fields: each field must have a
/// primitive type, and it is optional unless required. `None` when a field
/// has another type: generation aborts there.
pub open spec fn model_fields(fields: Seq<SpecField>) -> Option<Seq<SpecModelField>>
    decreases fields.len(),
{
    if fields.len() == 0 {
        Some(Seq::empty())
    } else {
        match model_fields(fields.drop_last()) {
            None => None,
            Some(prev) => {
                let f = fields.last();
                match f.typ {
                    Type::Primative(p) => Some(
                        prev.push(SpecModelField { ident: f.ident, typ: p, optional: !f.required }),
                    ),
                    _ => None,
                }
            },
        }
    }
}

/// A part of a union with a reference replaced by the component it names
/// (once); `None` when no component has that name.
pub open spec fn resolve_part(comps: Seq<(Seq<char>, SpecTypedSchema)>, part: SpecTypedSchema) -> Option<
    SpecTypedSchema,
> {
    match part {
        SpecTypedSchema::Ref(name) => {
            let i = first_index(component_keys(comps), name);
            if 0 <= i {
                Some(comps[i].1)
            } else {
                None
            }
        },
        _ => Some(part),
    }
}

/// The model fields of a union: the fields of each part in turn, where each
/// part, once resolved, must be an object. `None` when generation aborts.
pub open spec fn union_fields(comps: Seq<(Seq<char>, SpecTypedSchema)>, parts: Seq<SpecTypedSchema>) -> Option<
    Seq<SpecModelField>,
>
    decreases parts.len(),
{
    if parts.len() == 0 {
        Some(Seq::empty())
    } else {
        match union_fields(comps, parts.drop_last()) {
            None => None,
            Some(prev) => match resolve_part(comps, parts.last()) {
                Some(SpecTypedSchema::Object(fields)) => match model_fields(fields) {
                    Some(more) => Some(prev + more),
                    None => None,
                },
                _ => None,
            },
        }
    }
}

/// The model struct of the component `name`: named by the last dotted
/// segment of `name`, with the fields of a union or an object, and no
/// fields for any other schema. `None` when generation aborts.
pub open spec fn spec_model(
    comps: Seq<(Seq<char>, SpecTypedSchema)>,
    name: Seq<char>,
    schema: SpecTypedSchema,
) -> Option<SpecModel> {
    match schema {
        SpecTypedSchema::Union(parts) => match union_fields(comps, parts) {
            Some(fields) => Some(SpecModel { name: last_segment(name), fields }),
            None => None,
        },
        SpecTypedSchema::Object(fields) => match model_fields(fields) {
            Some(mf) => Some(SpecModel { name: last_segment(name), fields: mf }),
            None => None,
        },
        _ => Some(SpecModel { name: last_segment(name), fields: Seq::empty() }),
    }
}

/// The model structs of the components in `upto`, one each and in order,
/// resolving references among all of `comps`. `None` when generation
/// aborts.
pub open spec fn spec_models(
    comps: Seq<(Seq<char>, SpecTypedSchema)>,
    upto: Seq<(Seq<char>, SpecTypedSchema)>,
) -> Option<Seq<SpecModel>>
    decreases upto.len(),
{
    if upto.len() == 0 {
        Some(Seq::empty())
    } else {
        match spec_models(comps, upto.drop_last()) {
            None => None,
            Some(prev) => match spec_model(comps, upto.last().0, upto.last().1) {
                Some(m) => Some(prev.push(m)),
                None => None,
            },
        }
    }
}

/// The model structs of all components, one each and in order; `None` when
/// generation aborts.
pub open spec fn spec_gen_components(comps: Seq<(Seq<char>, SpecTypedSchema)>) -> Option<
    Seq<SpecModel>,
> {
    spec_models(comps, comps)
}

proof fn lemma_model_fields_prefix(fields: Seq<SpecField>, i: int)
    requires
        0 <= i <= fields.len(),
        model_fields(fields.take(i)) is None,
    ensures
        model_fields(fields) is None,
    decreases fields.len(),
{
    if i < fields.len() {
        assert(fields.drop_last().take(i) =~= fields.take(i));
        lemma_model_fields_prefix(fields.drop_last(), i);
    } else {
        assert(fields.take(i) =~= fields);
    }
}

proof fn lemma_union_fields_prefix(
    comps: Seq<(Seq<char>, SpecTypedSchema)>,
    parts: Seq<SpecTypedSchema>,
    i: int,
)
    requires
        0 <= i <= parts.len(),
        union_fields(comps, parts.take(i)) is None,
    ensures
        union_fields(comps, parts) is None,
    decreases parts.len(),
{
    if i < parts.len() {
        assert(parts.drop_last().take(i) =~= parts.take(i));
        lemma_union_fields_prefix(comps, parts.drop_last(), i);
    } else {
        assert(parts.take(i) =~= parts);
    }
}

proof fn lemma_models_prefix(
    comps: Seq<(Seq<char>, SpecTypedSchema)>,
    upto: Seq<(Seq<char>, SpecTypedSchema)>,
    i: int,
)
    requires
        0 <= i <= upto.len(),
        spec_models(comps, upto.take(i)) is None,
    ensures
        spec_models(comps, upto) is None,
    decreases upto.len(),
{
    if i < upto.len() {
        assert(upto.drop_last().take(i) =~= upto.take(i));
        lemma_models_prefix(comps, upto.drop_last(), i);
    } else {
        assert(upto.take(i) =~= upto);
    }
}

/// The typed views of a list hold the view of each of its schemas.
pub proof fn lemma_typed_views(ts: Seq<TypedSchema>)
    ensures
        typed_views(ts).len() == ts.len(),
        forall|i: int| 0 <= i < ts.len() ==> #[trigger] typed_views(ts)[i] == ts[i]@,
    decreases ts.len(),
{
    if ts.len() > 0 {
        lemma_typed_views(ts.drop_last());
    }
}

/// The model fields of an object's fields, or `None` when one of them does
/// not have a primitive type.
fn model_fields_of(fields: &Vec<Field>) -> (res: Option<Vec<ModelField>>)
    ensures
        match (res, model_fields(fields_view(fields@))) {
            (Some(mf), Some(s)) => model_fields_view(mf@) == s,
            (None, None) => true,
            _ => false,
        },
{
    let ghost fv = fields_view(fields@);
    let mut out: Vec<ModelField> = Vec::new();
    let mut i: usize = 0;
    assert(fv.take(0) =~= Seq::<SpecField>::empty());
    while i < fields.len()
        invariant
            fv == fields_view(fields@),
            0 <= i <= fields@.len(),
            model_fields(fv.take(i as int)) == Some(model_fields_view(out@)),
        decreases fields@.len() - i,
    {
        let f = &fields[i];
        proof {
            assert(fv.take(i + 1).drop_last() =~= fv.take(i as int));
            assert(fv.take(i + 1).last() == f@);
        }
        match f.typ {
            Type::Primative(p) => {
                let ghost before = out@;
                out.push(ModelField { ident: f.ident.clone(), typ: p, optional: !f.required });
                assert(model_fields_view(out@) =~= model_fields_view(before).push(out@.last()@));
            },
            _ => {
                proof {
                    lemma_model_fields_prefix(fv, i + 1);
                }
                return None;
            },
        }
        i = i + 1;
    }
    assert(fv.take(fields@.len() as int) =~= fv);
    Some(out)
}

/// The model fields of a union, or `None` when a part does not resolve to
/// an object whose fields are all primitive.
fn union_fields_of(comps: &Vec<(String, TypedSchema)>, parts: &Vec<TypedSchema>) -> (res: Option<
    Vec<ModelField>,
>)
    ensures
        match (res, union_fields(components_view(comps@), typed_views(parts@))) {
            (Some(mf), Some(s)) => model_fields_view(mf@) == s,
            (None, None) => true,
            _ => false,
        },
{
    let ghost cv = components_view(comps@);
    let ghost pv = typed_views(parts@);
    proof {
        assert(component_keys(cv) =~= entry_keys(comps@));
        lemma_typed_views(parts@);
    }
    let mut out: Vec<ModelField> = Vec::new();
    let mut i: usize = 0;
    assert(pv.take(0) =~= Seq::<SpecTypedSchema>::empty());
    while i < parts.len()
        invariant
            cv == components_view(comps@),
            pv == typed_views(parts@),
            pv.len() == parts@.len(),
            forall|k: int| 0 <= k < parts@.len() ==> #[trigger] pv[k] == parts@[k]@,
            component_keys(cv) == entry_keys(comps@),
            0 <= i <= parts@.len(),
            union_fields(cv, pv.take(i as int)) == Some(model_fields_view(out@)),
        decreases parts@.len() - i,
    {
        proof {
            assert(pv.take(i + 1).drop_last() =~= pv.take(i as int));
            assert(pv.take(i + 1).last() == parts@[i as int]@);
        }
        let resolved: &TypedSchema = match &parts[i] {
            TypedSchema::Ref(name) => match find_key(comps, name.as_str()) {
                Some(k) => &comps[k].1,
                None => {
                    proof {
                        lemma_union_fields_prefix(cv, pv, i + 1);
                    }
                    return None;
                },
            },
            other => other,
        };
        assert(resolve_part(cv, pv[i as int]) == Some(resolved@));
        match resolved {
            TypedSchema::Object(object) => match model_fields_of(&object.fields) {
                Some(more) => {
                    let mut more = more;
                    let ghost before = out@;
                    let ghost added = more@;
                    out.append(&mut more);
                    assert(model_fields_view(out@) =~= model_fields_view(before)
                        + model_fields_view(added));
                },
                None => {
                    proof {
                        lemma_union_fields_prefix(cv, pv, i + 1);
                    }
                    return None;
                },
            },
            _ => {
                proof {
                    lemma_union_fields_prefix(cv, pv, i + 1);
                }
                return None;
            },
        }
        i = i + 1;
    }
    assert(pv.take(parts@.len() as int) =~= pv);
    Some(out)
}

/// The model struct of the component `name`, or `None` when generation
/// aborts on it.
fn model_of(comps: &Vec<(String, TypedSchema)>, name: &String, schema: &TypedSchema) -> (res: Option<
    Model,
>)
    ensures
        match (res, spec_model(components_view(comps@), name@, schema@)) {
            (Some(m), Some(s)) => m@ == s,
            (None, None) => true,
            _ => false,
        },
{
    let model_name = last_name_segment(name.as_str());
    match schema {
        TypedSchema::Union(parts) => match union_fields_of(comps, parts) {
            Some(fields) => Some(Model { name: model_name, fields }),
            None => None,
        },
        TypedSchema::Object(object) => match model_fields_of(&object.fields) {
            Some(fields) => Some(Model { name: model_name, fields }),
            None => None,
        },
        _ => {
            let fields: Vec<ModelField> = Vec::new();
            assert(model_fields_view(fields@) =~= Seq::<SpecModelField>::empty());
            Some(Model { name: model_name, fields })
        },
    }
}

/// The model structs of the components, one each and in order, or `None`
/// when generation aborts on one of them (a union part that names no
/// component or is not an object, or a field of a non-primitive type).
pub fn gen_components_checked(comps: &Vec<(String, TypedSchema)>) -> (res: Option<Vec<Model>>)
    ensures
        match (res, spec_gen_components(components_view(comps@))) {
            (Some(ms), Some(s)) => models_view(ms@) == s,
            (None, None) => true,
            _ => false,
        },
{
    let ghost cv = components_view(comps@);
    let mut out: Vec<Model> = Vec::new();
    let mut i: usize = 0;
    assert(cv.take(0) =~= Seq::<(Seq<char>, SpecTypedSchema)>::empty());
    while i < comps.len()
        invariant
            cv == components_view(comps@),
            0 <= i <= comps@.len(),
            spec_models(cv, cv.take(i as int)) == Some(models_view(out@)),
        decreases comps@.len() - i,
    {
        proof {
            assert(cv.take(i + 1).drop_last() =~= cv.take(i as int));
            assert(cv.take(i + 1).last() == (comps@[i as int].0@, comps@[i as int].1@));
        }
        match model_of(comps, &comps[i].0, &comps[i].1) {
            Some(m) => {
                let ghost before = out@;
                out.push(m);
                assert(models_view(out@) =~= models_view(before).push(out@.last()@));
            },
            None => {
                proof {
                    lemma_models_prefix(cv, cv, i + 1);
                }
                return None;
            },
        }
        i = i + 1;
    }
    assert(cv.take(comps@.len() as int) =~= cv);
    Some(out)
}

/// The model structs that the typed component schemas generate: one per
/// component, in order, named by the last dotted segment of the component
/// name; a union gets the fields of each of its parts (references resolved
/// to the components they name), an object its own fields, any other
/// schema no fields; a field is optional unless required.
pub fn gen_components(comps: &Vec<(String, TypedSchema)>) -> (res: Vec<Model>)
    requires
        spec_gen_components(components_view(comps@)) is Some,
    ensures
        models_view(res@) == spec_gen_components(components_view(comps@))->0,
{
    match gen_components_checked(comps) {
        Some(models) => models,
        None => {
            proof {
                assert(false);
            }
            Vec::new()
        },
    }
}

} // verus!
