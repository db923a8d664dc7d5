//! Matching an information object against the syntax of its class.
use vstd::prelude::*;
use crate::error::{GeneratorError, GeneratorErrorType};
use crate::ir::{Asn1Type, Asn1Value, InformationObjectClass, InformationObjectClassField, InformationObjectField};

verus! {

/// The identifier of an object's field.
pub open spec fn field_identifier(f: InformationObjectField) -> Seq<char> {
    match f {
        InformationObjectField::TypeField { identifier, .. } => identifier@,
        InformationObjectField::FixedValueField { identifier, .. } => identifier@,
        InformationObjectField::ObjectSetField { identifier } => identifier@,
    }
}

/// The number of fields of a class marked as its unique key.
pub open spec fn unique_count(fields: Seq<InformationObjectClassField>) -> nat {
    fields.filter(|f: InformationObjectClassField| f.is_unique).len()
}

/// What the walk from class field `ci` and object field `ai` on collects:
/// the key value, if the key field comes, and the type fields with their
/// positions in the object. A field that matches is consumed; a mandatory
/// class field that does not match is a syntax mismatch; an optional one
/// is skipped. The walk ends with the class fields or the object's fields.
pub open spec fn syntax_walk(fields: Seq<InformationObjectClassField>, app: Seq<InformationObjectField>, ci: int, ai: int)
    -> Result<(Option<Asn1Value>, Seq<(int, Asn1Type)>), GeneratorErrorType>
    decreases fields.len() - ci,
{
    if ci < 0 || ai < 0 || ci >= fields.len() || ai >= app.len() {
        Ok((None, seq![]))
    } else if fields[ci].identifier@ == field_identifier(app[ai]) {
        match app[ai] {
            InformationObjectField::TypeField { ty, .. } => match syntax_walk(fields, app, ci + 1, ai + 1) {
                Ok((k, ts)) => Ok((k, seq![(ai, ty)] + ts)),
                Err(e) => Err(e),
            },
            InformationObjectField::FixedValueField { value, .. } => match syntax_walk(fields, app, ci + 1, ai + 1) {
                Ok((k, ts)) => Ok((if k is Some { k } else if fields[ci].is_unique { Some(value) } else { None }, ts)),
                Err(e) => Err(e),
            },
            InformationObjectField::ObjectSetField { .. } => Err(GeneratorErrorType::NotYetImplemented),
        }
    } else if !fields[ci].is_optional {
        Err(GeneratorErrorType::SyntaxMismatch)
    } else {
        syntax_walk(fields, app, ci + 1, ai)
    }
}

/// The key value and the ordered type fields of an object of a class, or
/// why there are none.
pub open spec fn standard_syntax(class: InformationObjectClass, app: Seq<InformationObjectField>)
    -> Result<(Asn1Value, Seq<(int, Asn1Type)>), GeneratorErrorType>
{
    if unique_count(class.fields@) != 1 {
        Err(GeneratorErrorType::MissingClassKey)
    } else {
        match syntax_walk(class.fields@, app, 0, 0) {
            Ok((Some(k), ts)) => Ok((k, ts)),
            Ok((None, _)) => Err(GeneratorErrorType::MissingClassKey),
            Err(e) => Err(e),
        }
    }
}

/// What has been collected, put before what the rest of the walk gives; a
/// key found later takes the place of one found before.
pub open spec fn walk_prepend(k: Option<Asn1Value>, ts: Seq<(int, Asn1Type)>,
    rest: Result<(Option<Asn1Value>, Seq<(int, Asn1Type)>), GeneratorErrorType>)
    -> Result<(Option<Asn1Value>, Seq<(int, Asn1Type)>), GeneratorErrorType>
{
    match rest {
        Ok((k2, ts2)) => Ok((if k2 is Some { k2 } else { k }, ts + ts2)),
        Err(e) => Err(e),
    }
}

/// The positions of the type fields that a walk collects rise strictly and
/// start at the object field where the walk starts.
pub proof fn lemma_walk_ordered(fields: Seq<InformationObjectClassField>, app: Seq<InformationObjectField>, ci: int, ai: int)
    requires
        ai >= 0,
    ensures
        syntax_walk(fields, app, ci, ai) matches Ok((_, ts)) ==> forall|i: int, j: int|
            0 <= i < j < ts.len() ==> ai <= #[trigger] ts[i].0 < #[trigger] ts[j].0,
        syntax_walk(fields, app, ci, ai) matches Ok((_, ts)) ==> forall|i: int|
            0 <= i < ts.len() ==> ai <= #[trigger] ts[i].0 < app.len(),
    decreases fields.len() - ci,
{
    if ci < 0 || ai < 0 || ci >= fields.len() || ai >= app.len() {
    } else if fields[ci].identifier@ == field_identifier(app[ai]) {
        lemma_walk_ordered(fields, app, ci + 1, ai + 1);
    } else if fields[ci].is_optional {
        lemma_walk_ordered(fields, app, ci + 1, ai);
    }
}

/// A class with no field or with several fields marked as its key never
/// yields a key: resolving any object against it fails with a missing key.
pub proof fn lemma_key_uniqueness(class: InformationObjectClass, app: Seq<InformationObjectField>)
    requires
        unique_count(class.fields@) != 1,
    ensures
        standard_syntax(class, app) == Err::<(Asn1Value, Seq<(int, Asn1Type)>), GeneratorErrorType>(
            GeneratorErrorType::MissingClassKey,
        ),
{
}

fn count_unique(fields: &Vec<InformationObjectClassField>) -> (r: usize)
    ensures
        r == unique_count(fields@),
{
    let mut n: usize = 0;
    let mut i: usize = 0;
    while i < fields.len()
        invariant
            i <= fields@.len(),
            n == unique_count(fields@.take(i as int)),
            n <= i,
        decreases fields@.len() - i,
    {
        proof {
            let pred = |f: InformationObjectClassField| f.is_unique;
            assert(fields@.take(i + 1) =~= fields@.take(i as int).push(fields@[i as int]));
            fields@.take(i as int).lemma_filter_push(fields@[i as int], pred);
        }
        if fields[i].is_unique {
            n = n + 1;
        }
        i = i + 1;
    }
    assert(fields@.take(fields@.len() as int) =~= fields@);
    n
}

/// The view of collected type fields, by position and type.
pub open spec fn collected(ts: Seq<(usize, &Asn1Type)>) -> Seq<(int, Asn1Type)> {
    ts.map_values(|p: (usize, &Asn1Type)| (p.0 as int, *p.1))
}

/// Resolves the syntax of an information object against its class: the
/// value of the class's unique key field and the object's type fields in
/// the order the object lists them.
pub fn resolve_standard_syntax<'a>(class: &InformationObjectClass, application: &'a [InformationObjectField])
    -> (r: Result<(&'a Asn1Value, Vec<(usize, &'a Asn1Type)>), GeneratorError>)
    ensures
        match r {
            Ok((k, ts)) => standard_syntax(*class, application@) == Ok::<(Asn1Value, Seq<(int, Asn1Type)>), GeneratorErrorType>((*k, collected(ts@))),
            Err(e) => standard_syntax(*class, application@) == Err::<(Asn1Value, Seq<(int, Asn1Type)>), GeneratorErrorType>(e.kind),
        },
        r matches Ok((_, ts)) ==> forall|i: int, j: int| 0 <= i < j < ts@.len() ==> #[trigger] ts@[i].0 < #[trigger] ts@[j].0,
{
    if count_unique(&class.fields) != 1 {
        return Err(GeneratorError::new(GeneratorErrorType::MissingClassKey, "the class has no single unique key field"));
    }
    let fields = &class.fields;
    let ghost whole = syntax_walk(fields@, application@, 0, 0);
    let mut key: Option<&'a Asn1Value> = None;
    let mut types: Vec<(usize, &'a Asn1Type)> = Vec::new();
    let mut ci: usize = 0;
    let mut ai: usize = 0;
    while ci < fields.len() && ai < application.len()
        invariant
            fields@ == class.fields@,
            unique_count(class.fields@) == 1,
            whole == syntax_walk(fields@, application@, 0, 0),
            ci <= fields@.len(),
            ai <= application@.len(),
            whole == walk_prepend(
                match key { Some(k) => Some(*k), None => None },
                collected(types@),
                syntax_walk(fields@, application@, ci as int, ai as int),
            ),
        decreases fields@.len() - ci,
    {
        let ghost kv = match key { Some(k) => Some(*k), None => None::<Asn1Value> };
        let ghost before = collected(types@);
        let cf = &fields[ci];
        let f = &application[ai];
        let id = match f {
            InformationObjectField::TypeField { identifier, .. } => identifier,
            InformationObjectField::FixedValueField { identifier, .. } => identifier,
            InformationObjectField::ObjectSetField { identifier } => identifier,
        };
        if cf.identifier == *id {
            match f {
                InformationObjectField::TypeField { ty, .. } => {
                    types.push((ai, ty));
                    assert(collected(types@) =~= before + seq![(ai as int, *ty)]);
                    proof {
                        let rest = syntax_walk(fields@, application@, ci + 1, ai + 1);
                        if let Ok((k2, ts2)) = rest {
                            assert(before + seq![(ai as int, *ty)] + ts2 =~= before + (seq![(ai as int, *ty)] + ts2));
                        }
                    }
                },
                InformationObjectField::FixedValueField { value, .. } => {
                    if cf.is_unique {
                        key = Some(value);
                    }
                },
                InformationObjectField::ObjectSetField { .. } => {
                    return Err(GeneratorError::new(
                        GeneratorErrorType::NotYetImplemented,
                        "object set fields are not supported",
                    ));
                },
            }
            ai = ai + 1;
        } else if !cf.is_optional {
            return Err(GeneratorError::new(
                GeneratorErrorType::SyntaxMismatch,
                "syntax mismatch while resolving information object",
            ));
        }
        ci = ci + 1;
    }
    proof {
        lemma_walk_ordered(fields@, application@, 0, 0);
        assert(collected(types@) + Seq::<(int, Asn1Type)>::empty() =~= collected(types@));
        let ts = collected(types@);
        assert(syntax_walk(fields@, application@, ci as int, ai as int)
            == Ok::<(Option<Asn1Value>, Seq<(int, Asn1Type)>), GeneratorErrorType>((None, Seq::empty())));
        assert(whole matches Ok((_, w)) && w == ts);
        assert forall|i: int, j: int| 0 <= i < j < types@.len() implies #[trigger] types@[i].0 < #[trigger] types@[j].0 by {
            assert(ts[i].0 < ts[j].0);
        }
    }
    match key {
        Some(k) => Ok((k, types)),
        None => Err(GeneratorError::new(GeneratorErrorType::MissingClassKey, "the object gives no value for the class key")),
    }
}

} // verus!
