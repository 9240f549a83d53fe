//! The parameters that each kind of primitive must be given.

use vstd::prelude::*;
use vstd::string::*;
use crate::errors::{ErrorCode, KernelError, KernelResult};
use crate::scalar::Scalar;
use crate::string_map::StringMap;
use crate::types::PrimitiveType;

verus! {

/// The names of the parameters that a primitive of the given kind needs,
/// in the order in which they are asked for.
pub open spec fn required_parameters(type_: PrimitiveType) -> Seq<Seq<char>> {
    match type_ {
        PrimitiveType::Box => seq!["width"@, "height"@, "depth"@],
        PrimitiveType::Cylinder => seq!["radius"@, "height"@],
        PrimitiveType::Sphere => seq!["radius"@],
        PrimitiveType::Cone => seq!["radius"@, "height"@],
        PrimitiveType::Torus => seq!["major_radius"@, "minor_radius"@],
    }
}

/// The first required parameter that `params` does not have.
pub open spec fn first_missing(required: Seq<Seq<char>>, params: Set<Seq<char>>) -> Option<
    Seq<char>,
>
    decreases required.len(),
{
    if required.len() == 0 {
        None
    } else if !params.contains(required[0]) {
        Some(required[0])
    } else {
        first_missing(required.drop_first(), params)
    }
}

/// The first parameter that a primitive of the given kind still needs.
pub open spec fn missing_parameter(type_: PrimitiveType, params: Set<Seq<char>>) -> Option<
    Seq<char>,
> {
    first_missing(required_parameters(type_), params)
}

/// No parameter is missing exactly when every required one is given.
pub proof fn lemma_first_missing(required: Seq<Seq<char>>, params: Set<Seq<char>>)
    ensures
        first_missing(required, params) is None <==> forall|i: int|
            0 <= i < required.len() ==> params.contains(#[trigger] required[i]),
    decreases required.len(),
{
    if required.len() > 0 {
        lemma_first_missing(required.drop_first(), params);
        if first_missing(required, params) is None {
            assert forall|i: int| 0 <= i < required.len() implies params.contains(
                #[trigger] required[i],
            ) by {
                if i > 0 {
                    assert(required.drop_first()[i - 1] == required[i]);
                }
            }
        } else if params.contains(required[0]) {
            let rest = required.drop_first();
            let i = choose|i: int| 0 <= i < rest.len() && !params.contains(#[trigger] rest[i]);
            assert(required[i + 1] == rest[i]);
        }
    }
}

fn required_names(type_: PrimitiveType) -> (names: Vec<&'static str>)
    ensures
        names@.len() == required_parameters(type_).len(),
        forall|i: int| 0 <= i < names@.len() ==> (#[trigger] names@[i])@ == required_parameters(type_)[i],
{
    let mut names: Vec<&'static str> = Vec::new();
    match type_ {
        PrimitiveType::Box => {
            names.push("width");
            names.push("height");
            names.push("depth");
        },
        PrimitiveType::Cylinder => {
            names.push("radius");
            names.push("height");
        },
        PrimitiveType::Sphere => {
            names.push("radius");
        },
        PrimitiveType::Cone => {
            names.push("radius");
            names.push("height");
        },
        PrimitiveType::Torus => {
            names.push("major_radius");
            names.push("minor_radius");
        },
    }
    names
}

/// Checks that a primitive has every parameter its kind needs, and names
/// the first that is missing.
pub fn validate_primitive_params(type_: PrimitiveType, params: &StringMap<Scalar>) -> (r:
    KernelResult<()>)
    ensures
        match r {
            Ok(()) => missing_parameter(type_, params@.dom()) is None,
            Err(e) => missing_parameter(type_, params@.dom()) matches Some(name) && e.is_plain(
                ErrorCode::MissingParameter,
                "Missing required parameter: "@ + name,
            ),
        },
{
    let names = required_names(type_);
    let ghost required = required_parameters(type_);
    let n = names.len();
    let mut i: usize = 0;
    assert(required.skip(0) =~= required);
    while i < n
        invariant
            n == names@.len(),
            n == required.len(),
            required == required_parameters(type_),
            i <= n,
            forall|j: int| 0 <= j < n ==> (#[trigger] names@[j])@ == required[j],
            first_missing(required, params@.dom()) == first_missing(
                required.skip(i as int),
                params@.dom(),
            ),
        decreases n - i,
    {
        let name = names[i];
        proof {
            assert(required.skip(i as int)[0] == required[i as int]);
            assert(required.skip(i as int).drop_first() == required.skip(i + 1));
        }
        if !params.contains_key(name) {
            assert(first_missing(required.skip(i as int), params@.dom()) == Some(
                required[i as int],
            ));
            return Err(KernelError::missing_parameter(name));
        }
        i += 1;
    }
    Ok(())
}

} // verus!
