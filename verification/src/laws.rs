//! Properties of the library that hold for every input.

use vstd::prelude::*;

use crate::client::{
    spec_client_method, spec_client_methods, spec_http_method, spec_path_methods, spec_plan,
    spec_typed_components,
};
use crate::document::{spec_endpoints, Operation, Path, Spec};
use crate::models::{model_fields, spec_gen_components, spec_models, SpecModel};
use crate::schema::{spec_classify, spec_classify_all, Outcome, Schema, SpecField, SpecTypedSchema};
use crate::text::{ascii_lowercase, char_is_uppercase, last_segment, snake_case_with, spec_to_snake_case};
use vstd::utf8::{encode_scalar, encode_utf8};
use crate::types::Type;

verus! {

/// Every endpoint of every path, with its path template and method name:
/// for each path in order, its endpoints in method order.
pub open spec fn all_endpoints(paths: Seq<(String, Path)>) -> Seq<(Seq<char>, Seq<char>, Operation)>
    decreases paths.len(),
{
    if paths.len() == 0 {
        Seq::empty()
    } else {
        all_endpoints(paths.drop_last()) + spec_endpoints(paths.last().1).map_values(
            |e: (Seq<char>, Operation)| (paths.last().0@, e.0, e.1),
        )
    }
}

/// The client methods of one path come one per endpoint, in order, each
/// the method of its endpoint; there are some exactly when every endpoint
/// has one.
pub proof fn law_path_methods(url: Seq<char>, eps: Seq<(Seq<char>, Operation)>)
    ensures
        spec_path_methods(url, eps) is Some <==> (forall|i: int|
            0 <= i < eps.len() ==> #[trigger] spec_client_method(url, eps[i].0, eps[i].1) is Some),
        spec_path_methods(url, eps) matches Some(ms) ==> {
            &&& ms.len() == eps.len()
            &&& forall|i: int|
                0 <= i < eps.len() ==> #[trigger] spec_client_method(url, eps[i].0, eps[i].1)
                    == Some(ms[i])
        },
    decreases eps.len(),
{
    if eps.len() > 0 {
        let prefix = eps.drop_last();
        law_path_methods(url, prefix);
        assert forall|i: int| 0 <= i < prefix.len() implies prefix[i] == eps[i] by {}
        let n = eps.len() - 1;
        if spec_path_methods(url, prefix) is None {
            let k = choose|k: int|
                0 <= k < prefix.len() && !(spec_client_method(url, prefix[k].0, prefix[k].1) is Some);
            assert(!(spec_client_method(url, eps[k].0, eps[k].1) is Some));
        } else if spec_client_method(url, eps[n].0, eps[n].1) is None {
        } else {
            let prev = spec_path_methods(url, prefix)->0;
            let ms = spec_path_methods(url, eps)->0;
            assert forall|i: int| 0 <= i < eps.len() implies #[trigger] spec_client_method(
                url,
                eps[i].0,
                eps[i].1,
            ) == Some(ms[i]) by {
                if i < n {
                    assert(spec_client_method(url, prefix[i].0, prefix[i].1) == Some(prev[i]));
                }
            }
        }
    }
}

/// One client method per operation: the client methods of a document's
/// paths come one per endpoint (for each path in order, its operations in
/// method order), each the method of its endpoint, named by the snake-case
/// operation id and offered at the path's template; there are some exactly
/// when every endpoint has one.
pub proof fn law_one_method_per_operation(paths: Seq<(String, Path)>)
    ensures
        ({
            let ae = all_endpoints(paths);
            &&& spec_client_methods(paths) is Some <==> (forall|i: int|
                0 <= i < ae.len() ==> #[trigger] spec_client_method(ae[i].0, ae[i].1, ae[i].2) is Some)
            &&& spec_client_methods(paths) matches Some(ms) ==> {
                &&& ms.len() == ae.len()
                &&& forall|i: int|
                    0 <= i < ae.len() ==> #[trigger] spec_client_method(ae[i].0, ae[i].1, ae[i].2)
                        == Some(ms[i])
                &&& forall|i: int|
                    0 <= i < ae.len() ==> (#[trigger] ms[i]).name == crate::text::spec_to_snake_case(
                        ae[i].2.operation_id@,
                    ) && ms[i].url == ae[i].0
            }
        }),
    decreases paths.len(),
{
    let ae = all_endpoints(paths);
    if paths.len() > 0 {
        let prefix = paths.drop_last();
        law_one_method_per_operation(prefix);
        let pe = all_endpoints(prefix);
        let url = paths.last().0@;
        let eps = spec_endpoints(paths.last().1);
        law_path_methods(url, eps);
        let tail = eps.map_values(|e: (Seq<char>, Operation)| (url, e.0, e.1));
        assert(ae == pe + tail);
        assert forall|i: int| 0 <= i < pe.len() implies ae[i] == pe[i] by {}
        assert forall|j: int| 0 <= j < eps.len() implies ae[pe.len() + j] == (url, eps[j].0, eps[j].1) by {}
        if spec_client_methods(prefix) is None {
            let k = choose|k: int|
                0 <= k < pe.len() && !(spec_client_method(pe[k].0, pe[k].1, pe[k].2) is Some);
            assert(!(spec_client_method(ae[k].0, ae[k].1, ae[k].2) is Some));
        } else if spec_path_methods(url, eps) is None {
            let k = choose|k: int|
                0 <= k < eps.len() && !(spec_client_method(url, eps[k].0, eps[k].1) is Some);
            assert(!(spec_client_method(ae[pe.len() + k].0, ae[pe.len() + k].1, ae[pe.len() + k].2) is Some));
        } else {
            let prev = spec_client_methods(prefix)->0;
            let more = spec_path_methods(url, eps)->0;
            let ms = spec_client_methods(paths)->0;
            assert(ms == prev + more);
            assert forall|i: int| 0 <= i < ae.len() implies #[trigger] spec_client_method(
                ae[i].0,
                ae[i].1,
                ae[i].2,
            ) == Some(ms[i]) by {
                if i < pe.len() {
                    assert(spec_client_method(pe[i].0, pe[i].1, pe[i].2) == Some(prev[i]));
                } else {
                    let j = i - pe.len();
                    assert(spec_client_method(url, eps[j].0, eps[j].1) == Some(more[j]));
                }
            }
            assert forall|i: int| 0 <= i < ae.len() implies (#[trigger] ms[i]).name
                == crate::text::spec_to_snake_case(ae[i].2.operation_id@) && ms[i].url == ae[i].0 by {
                assert(spec_client_method(ae[i].0, ae[i].1, ae[i].2) == Some(ms[i]));
            }
        }
    }
}

/// An operation offered under a method other than get, post or delete
/// makes generation abort.
pub proof fn law_unsupported_method_aborts(paths: Seq<(String, Path)>, i: int)
    requires
        0 <= i < all_endpoints(paths).len(),
        spec_http_method(all_endpoints(paths)[i].1) is None,
    ensures
        spec_client_methods(paths) is None,
{
    law_one_method_per_operation(paths);
    let ae = all_endpoints(paths);
    assert(spec_client_method(ae[i].0, ae[i].1, ae[i].2) is None);
}

/// How many characters after the first of `upper[..n]` count as uppercase.
pub open spec fn separator_count(upper: Seq<bool>, n: int) -> nat
    decreases n,
{
    if n <= 1 {
        0
    } else {
        separator_count(upper, n - 1) + if upper[n - 1] {
            1nat
        } else {
            0nat
        }
    }
}

/// Snake case adds one `'_'` per uppercase character after the first.
pub proof fn law_snake_case_length(chars: Seq<char>, upper: Seq<bool>)
    ensures
        snake_case_with(chars, upper).len() == chars.len() + separator_count(upper, chars.len() as int),
    decreases chars.len(),
{
    if chars.len() > 0 {
        law_snake_case_length(chars.drop_last(), upper);
    }
}

/// A snake-case name holds no ASCII capital letter.
pub proof fn law_snake_case_no_ascii_capitals(chars: Seq<char>, upper: Seq<bool>)
    ensures
        forall|i: int|
            0 <= i < snake_case_with(chars, upper).len() ==> !('A' <= #[trigger] snake_case_with(
                chars,
                upper,
            )[i] && snake_case_with(chars, upper)[i] <= 'Z'),
    decreases chars.len(),
{
    if chars.len() > 0 {
        law_snake_case_no_ascii_capitals(chars.drop_last(), upper);
        let c = chars.last();
        let l = ascii_lowercase(c);
        if 'A' <= c && c <= 'Z' {
            assert(97 <= (c as u32) + 32 <= 122);
            assert(l as u32 == (c as u32) + 32);
        }
        let prev = snake_case_with(chars.drop_last(), upper);
        let r = snake_case_with(chars, upper);
        assert forall|i: int| 0 <= i < r.len() implies !('A' <= #[trigger] r[i] && r[i] <= 'Z') by {
            if i < prev.len() {
                assert(r[i] == prev[i]);
            }
        }
    }
}

/// A name with no uppercase character after the first and no ASCII
/// capital letter is its own snake case.
pub proof fn law_snake_case_fixed_point(chars: Seq<char>, upper: Seq<bool>)
    requires
        forall|i: int| 1 <= i < chars.len() ==> !upper[i],
        forall|i: int| 0 <= i < chars.len() ==> !('A' <= #[trigger] chars[i] && chars[i] <= 'Z'),
    ensures
        snake_case_with(chars, upper) == chars,
    decreases chars.len(),
{
    if chars.len() > 0 {
        law_snake_case_fixed_point(chars.drop_last(), upper);
        assert(chars.last() == chars[chars.len() - 1]);
        assert(snake_case_with(chars, upper) =~= chars);
    }
}

/// The fields of an object model are its properties in order: same names,
/// each of the property's primitive type, optional exactly when not
/// required.
pub proof fn law_object_model_fields(fields: Seq<SpecField>)
    ensures
        model_fields(fields) matches Some(mf) ==> {
            &&& mf.len() == fields.len()
            &&& forall|i: int|
                0 <= i < fields.len() ==> {
                    &&& (#[trigger] mf[i]).ident == fields[i].ident
                    &&& mf[i].optional == !fields[i].required
                    &&& fields[i].typ == Type::Primative(mf[i].typ)
                }
        },
        model_fields(fields) is Some <==> (forall|i: int|
            0 <= i < fields.len() ==> (#[trigger] fields[i]).typ is Primative),
    decreases fields.len(),
{
    if fields.len() > 0 {
        let prefix = fields.drop_last();
        law_object_model_fields(prefix);
        assert forall|i: int| 0 <= i < prefix.len() implies prefix[i] == fields[i] by {}
        if model_fields(prefix) is None {
            let k = choose|k: int| 0 <= k < prefix.len() && !(prefix[k].typ is Primative);
            assert(!(fields[k].typ is Primative));
        }
    }
}

/// The models of the components in `upto` come one per component, each the
/// model of its component, named by the last dotted segment of its name.
pub proof fn lemma_models_names(comps: Seq<(Seq<char>, SpecTypedSchema)>, upto: Seq<(Seq<char>, SpecTypedSchema)>)
    ensures
        spec_models(comps, upto) matches Some(ms) ==> {
            &&& ms.len() == upto.len()
            &&& forall|i: int|
                0 <= i < upto.len() ==> (#[trigger] ms[i]).name == last_segment(upto[i].0)
                    && crate::models::spec_model(comps, upto[i].0, upto[i].1) == Some(ms[i])
        },
    decreases upto.len(),
{
    if upto.len() > 0 {
        let prefix = upto.drop_last();
        lemma_models_names(comps, prefix);
        if let Some(ms) = spec_models(comps, upto) {
            let prev = spec_models(comps, prefix)->0;
            assert forall|i: int| 0 <= i < upto.len() implies (#[trigger] ms[i]).name == last_segment(
                upto[i].0,
            ) && crate::models::spec_model(comps, upto[i].0, upto[i].1) == Some(ms[i]) by {
                if i < prefix.len() {
                    assert(ms[i] == prev[i]);
                    assert(prefix[i] == upto[i]);
                }
            }
        }
    }
}

/// One model per component: the models of the components come one per
/// component, in order, each named by the last dotted segment of the
/// component's name.
pub proof fn law_one_model_per_component(comps: Seq<(Seq<char>, SpecTypedSchema)>)
    ensures
        spec_gen_components(comps) matches Some(ms) ==> {
            &&& ms.len() == comps.len()
            &&& forall|i: int|
                0 <= i < comps.len() ==> (#[trigger] ms[i]).name == last_segment(comps[i].0)
        },
{
    lemma_models_names(comps, comps);
}

/// The parts of a union are typed one by one, in order: a typed union has
/// as many parts as the schema, each the type of its part.
pub proof fn law_union_keeps_parts(parts: Seq<Schema>)
    ensures
        spec_classify_all(parts) matches Outcome::Typed(ts) ==> {
            &&& ts.len() == parts.len()
            &&& forall|i: int|
                0 <= i < parts.len() ==> spec_classify(#[trigger] parts[i]) == Outcome::Typed(ts[i])
        },
    decreases parts.len(),
{
    if parts.len() > 0 {
        let prefix = parts.drop_last();
        law_union_keeps_parts(prefix);
        if let Outcome::Typed(ts) = spec_classify_all(parts) {
            let prev = spec_classify_all(prefix)->Typed_0;
            assert forall|i: int| 0 <= i < parts.len() implies spec_classify(#[trigger] parts[i])
                == Outcome::Typed(ts[i]) by {
                if i < prefix.len() {
                    assert(prefix[i] == parts[i]);
                    assert(ts[i] == prev[i]);
                }
            }
        }
    }
}

/// The component schemas type one by one, in order, keeping their names;
/// they all type exactly when each one does.
pub proof fn law_typed_components(schemas: Seq<(String, Schema)>)
    ensures
        spec_typed_components(schemas) is Some <==> (forall|i: int|
            0 <= i < schemas.len() ==> spec_classify(#[trigger] schemas[i].1) is Typed),
        spec_typed_components(schemas) matches Some(comps) ==> {
            &&& comps.len() == schemas.len()
            &&& forall|i: int|
                0 <= i < schemas.len() ==> (#[trigger] comps[i]).0 == schemas[i].0@ && spec_classify(
                    schemas[i].1,
                ) == Outcome::Typed(comps[i].1)
        },
    decreases schemas.len(),
{
    if schemas.len() > 0 {
        let prefix = schemas.drop_last();
        law_typed_components(prefix);
        assert forall|i: int| 0 <= i < prefix.len() implies prefix[i] == schemas[i] by {}
        if spec_typed_components(prefix) is None {
            let k = choose|k: int| 0 <= k < prefix.len() && !(spec_classify(prefix[k].1) is Typed);
            assert(!(spec_classify(schemas[k].1) is Typed));
        }
        if let Some(comps) = spec_typed_components(schemas) {
            let prev = spec_typed_components(prefix)->0;
            assert forall|i: int| 0 <= i < schemas.len() implies (#[trigger] comps[i]).0
                == schemas[i].0@ && spec_classify(schemas[i].1) == Outcome::Typed(comps[i].1) by {
                if i < prefix.len() {
                    assert(comps[i] == prev[i]);
                }
            }
        }
    }
}

/// The generated client keeps the document's servers in order, has one
/// method per operation, and one model per component schema, named by the
/// last dotted segment of the component's name.
pub proof fn law_plan_shape(doc: Spec)
    ensures
        spec_plan(doc) matches Some(p) ==> {
            &&& p.servers.len() == doc.servers@.len()
            &&& forall|i: int|
                0 <= i < doc.servers@.len() ==> #[trigger] p.servers[i] == doc.servers@[i].url@
            &&& p.methods.len() == all_endpoints(doc.paths@).len()
            &&& p.models.len() == doc.components.schemas@.len()
            &&& forall|i: int|
                0 <= i < p.models.len() ==> (#[trigger] p.models[i]).name == last_segment(
                    doc.components.schemas@[i].0@,
                )
        },
{
    law_one_method_per_operation(doc.paths@);
    law_typed_components(doc.components.schemas@);
    if let Some(comps) = spec_typed_components(doc.components.schemas@) {
        law_one_model_per_component(comps);
    }
}

/// Snake case is idempotent: taking the snake case of a snake-case name
/// again, where only ASCII capital letters count as uppercase, changes
/// nothing.
pub proof fn law_snake_case_idempotent(chars: Seq<char>, upper: Seq<bool>, upper2: Seq<bool>)
    requires
        forall|i: int|
            0 <= i < snake_case_with(chars, upper).len() && #[trigger] upper2[i] ==> 'A'
                <= snake_case_with(chars, upper)[i] && snake_case_with(chars, upper)[i] <= 'Z',
    ensures
        snake_case_with(snake_case_with(chars, upper), upper2) == snake_case_with(chars, upper),
{
    let r = snake_case_with(chars, upper);
    law_snake_case_no_ascii_capitals(chars, upper);
    assert forall|i: int| 1 <= i < r.len() implies !upper2[i] by {
        if upper2[i] {
            assert(!('A' <= r[i] && r[i] <= 'Z'));
        }
    }
    law_snake_case_fixed_point(r, upper2);
}

/// A snake-case name has no uppercase character when no character of the
/// name is both uppercase and beyond ASCII.
proof fn lemma_snake_case_no_uppercase(chars: Seq<char>, upper: Seq<bool>)
    requires
        forall|i: int|
            0 <= i < chars.len() && char_is_uppercase(#[trigger] chars[i]) ==> (chars[i] as u32)
                < 128,
    ensures
        forall|i: int|
            0 <= i < snake_case_with(chars, upper).len() ==> !char_is_uppercase(
                #[trigger] snake_case_with(chars, upper)[i],
            ),
    decreases chars.len(),
{
    if chars.len() > 0 {
        let p = chars.drop_last();
        assert forall|i: int| 0 <= i < p.len() && char_is_uppercase(#[trigger] p[i]) implies (p[i] as u32)
            < 128 by {
            assert(p[i] == chars[i]);
        }
        lemma_snake_case_no_uppercase(p, upper);
        let c = chars.last();
        let l = ascii_lowercase(c);
        if 'A' <= c && c <= 'Z' {
            assert(97 <= (c as u32) + 32 <= 122);
            assert(l as u32 == (c as u32) + 32);
        } else {
            assert(chars[chars.len() - 1] == c);
        }
        assert(!char_is_uppercase(l));
        assert(('_' as u32) == 95);
        assert(!char_is_uppercase('_'));
        let prev = snake_case_with(p, upper);
        let r = snake_case_with(chars, upper);
        assert forall|i: int| 0 <= i < r.len() implies !char_is_uppercase(#[trigger] r[i]) by {
            if i < prev.len() {
                assert(r[i] == prev[i]);
            }
        }
    }
}

/// `to_snake_case` is idempotent on names of which no character is both
/// uppercase and beyond ASCII (for instance ASCII names).
pub proof fn law_to_snake_case_idempotent(s: Seq<char>)
    requires
        forall|i: int| 0 <= i < s.len() && char_is_uppercase(#[trigger] s[i]) ==> (s[i] as u32) < 128,
    ensures
        spec_to_snake_case(spec_to_snake_case(s)) == spec_to_snake_case(s),
{
    let flags = Seq::new(s.len(), |i: int| char_is_uppercase(s[i]));
    let r = spec_to_snake_case(s);
    lemma_snake_case_no_uppercase(s, flags);
    let flags2 = Seq::new(r.len(), |i: int| char_is_uppercase(r[i]));
    assert forall|i: int| 0 <= i < r.len() && #[trigger] flags2[i] implies 'A' <= r[i] && r[i]
        <= 'Z' by {
        assert(!char_is_uppercase(r[i]));
    }
    law_snake_case_idempotent(s, flags, flags2);
}

/// The UTF-8 encoding of a concatenation is the concatenation of the
/// encodings.
pub proof fn lemma_encode_utf8_concat(a: Seq<char>, b: Seq<char>)
    ensures
        encode_utf8(a + b) == encode_utf8(a) + encode_utf8(b),
    decreases a.len(),
{
    if a.len() == 0 {
        assert(a + b =~= b);
        assert(encode_utf8(a) =~= Seq::<u8>::empty());
        assert(encode_utf8(a) + encode_utf8(b) =~= encode_utf8(b));
    } else {
        assert((a + b).drop_first() =~= a.drop_first() + b);
        assert((a + b)[0] == a[0]);
        lemma_encode_utf8_concat(a.drop_first(), b);
        assert(encode_utf8(a + b) =~= encode_utf8(a) + encode_utf8(b));
    }
}

/// The UTF-8 encoding of one character is that of its scalar value.
proof fn lemma_encode_utf8_single(c: char)
    ensures
        encode_utf8(seq![c]) == encode_scalar(c as u32),
{
    assert(seq![c].drop_first() =~= Seq::<char>::empty());
    assert(encode_utf8(Seq::<char>::empty()) =~= Seq::<u8>::empty());
    assert(encode_scalar(c as u32) + Seq::<u8>::empty() =~= encode_scalar(c as u32));
}

/// ASCII lowercasing keeps the UTF-8 length of a character.
proof fn lemma_ascii_lowercase_width(c: char)
    ensures
        encode_scalar(ascii_lowercase(c) as u32).len() == encode_scalar(c as u32).len(),
{
    if 'A' <= c && c <= 'Z' {
        assert(97 <= (c as u32) + 32 <= 122);
        assert(ascii_lowercase(c) as u32 == (c as u32) + 32);
    }
}

/// Snake case adds one byte of UTF-8 per uppercase character after the
/// first: lowercasing keeps every character's encoded length, and each
/// `'_'` is one byte.
pub proof fn law_snake_case_utf8_length(chars: Seq<char>, upper: Seq<bool>)
    ensures
        encode_utf8(snake_case_with(chars, upper)).len() == encode_utf8(chars).len()
            + separator_count(upper, chars.len() as int),
    decreases chars.len(),
{
    if chars.len() > 0 {
        let p = chars.drop_last();
        let c = chars.last();
        law_snake_case_utf8_length(p, upper);
        assert(chars =~= p + seq![c]);
        lemma_encode_utf8_concat(p, seq![c]);
        lemma_encode_utf8_single(c);
        let n = chars.len() - 1;
        let sep: Seq<char> = if n > 0 && upper[n] {
            seq!['_']
        } else {
            Seq::empty()
        };
        let prev = snake_case_with(p, upper);
        let l = ascii_lowercase(c);
        assert(snake_case_with(chars, upper) == prev + sep + seq![l]);
        lemma_encode_utf8_concat(prev + sep, seq![l]);
        lemma_encode_utf8_concat(prev, sep);
        lemma_encode_utf8_single(l);
        lemma_ascii_lowercase_width(c);
        if n > 0 && upper[n] {
            lemma_encode_utf8_single('_');
            assert(('_' as u32) == 95);
        } else {
            assert(encode_utf8(sep) =~= Seq::<u8>::empty());
        }
    }
}

} // verus!
