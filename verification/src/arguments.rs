//! Graph arguments: a graph file declares named arguments, numeric fields may
//! refer to them as `$name` or `${name}`, and callers may override their
//! values before the graph is validated.
use vstd::prelude::*;
use vstd::string::StrSliceExecFns;
use crate::definition::{
    ComputeGraphDefinition, ComputeNodeDefinition, ResourceBindingDefinition, ResourceDefinition,
    ResourceKind,
};
use crate::errors::{ComputeGraphError, GraphError};
use crate::format::ImageFormat;
use crate::name_map::NameMap;
use crate::names::{chars_of, name_lt};
use crate::validate::{first_error, lemma_first_error_at, lemma_first_error_none};

verus! {

/// A numeric field as written in a graph file.
#[derive(Clone, Debug)]
pub enum GraphValue {
    /// An integer literal.
    Integer(i64),
    /// A reference to a graph argument: `$name` or `${name}`.
    Text(String),
}

/// A resource as written in a graph file, before argument substitution.
#[derive(Debug)]
pub struct ResourceSource {
    pub kind: ResourceKind,
    pub width: Option<GraphValue>,
    pub height: Option<GraphValue>,
    pub extent: Option<[GraphValue; 2]>,
    pub size: Option<GraphValue>,
    pub input: Option<String>,
    pub format: Option<ImageFormat>,
    pub output: Option<String>,
}

/// A node as written in a graph file, before argument substitution.
#[derive(Debug)]
pub struct ComputeNodeSource {
    pub name: String,
    pub shader: String,
    pub kernel: String,
    pub dispatch: [GraphValue; 3],
    pub bindings: Vec<ResourceBindingDefinition>,
}

/// A graph as written in a graph file, before argument substitution.
#[derive(Debug)]
pub struct ComputeGraphSource {
    /// The declared arguments and their default values.
    pub arguments: NameMap<String>,
    pub resources: NameMap<ResourceSource>,
    pub nodes: Vec<ComputeNodeSource>,
}

/// The largest value of a 32-bit field.
pub open spec fn max_u32() -> nat {
    0xffff_ffff
}

/// The largest value of a 64-bit field.
pub open spec fn max_u64() -> nat {
    0xffff_ffff_ffff_ffff
}

/// The argument named by a reference `$name` or `${name}`.
pub open spec fn reference_name(t: Seq<char>) -> Option<Seq<char>> {
    if t.len() >= 4 && t[0] == '$' && t[1] == '{' && t[t.len() - 1] == '}' {
        Some(t.subrange(2, t.len() - 1))
    } else if t.len() >= 2 && t[0] == '$' && t[1] != '{' {
        Some(t.subrange(1, t.len() as int))
    } else {
        None
    }
}

/// An ASCII decimal digit.
pub open spec fn is_digit(c: char) -> bool {
    '0' <= c && c <= '9'
}

/// The value of a digit.
pub open spec fn digit_value(c: char) -> nat {
    ((c as u32) - 48) as nat
}

/// The number a sequence of digits denotes.
pub open spec fn digits_value(s: Seq<char>) -> nat
    decreases s.len(),
{
    if s.len() == 0 {
        0
    } else {
        digits_value(s.drop_last()) * 10 + digit_value(s.last())
    }
}

/// The unsigned integer the text denotes: one or more decimal digits.
pub open spec fn unsigned_value(s: Seq<char>) -> Option<nat> {
    if s.len() > 0 && forall|i: int| 0 <= i < s.len() ==> is_digit(#[trigger] s[i]) {
        Some(digits_value(s))
    } else {
        None
    }
}

/// The value of a numeric field of `owner` whose largest allowed value is `max`.
pub open spec fn resolve_value(
    v: GraphValue,
    args: Map<Seq<char>, String>,
    max: nat,
    owner: Seq<char>,
) -> Result<nat, GraphError<Seq<char>>> {
    match v {
        GraphValue::Integer(n) => if n < 0 || n > max {
            Err(GraphError::ValueOutOfRange { owner })
        } else {
            Ok(n as nat)
        },
        GraphValue::Text(t) => match reference_name(t@) {
            None => Err(GraphError::MalformedReference { text: t@ }),
            Some(name) => if !args.contains_key(name) {
                Err(GraphError::UndeclaredArgument { argument: name })
            } else {
                match unsigned_value(args[name]@) {
                    None => Err(
                        GraphError::ArgumentNotInteger { argument: name, value: args[name]@ },
                    ),
                    Some(x) => if x > max {
                        Err(GraphError::ValueOutOfRange { owner })
                    } else {
                        Ok(x)
                    },
                }
            },
        },
    }
}

/// The value of an optional numeric field.
pub open spec fn resolve_optional(
    v: Option<GraphValue>,
    args: Map<Seq<char>, String>,
    max: nat,
    owner: Seq<char>,
) -> Result<Option<nat>, GraphError<Seq<char>>> {
    match v {
        None => Ok(None),
        Some(x) => match resolve_value(x, args, max, owner) {
            Err(e) => Err(e),
            Ok(n) => Ok(Some(n)),
        },
    }
}

/// The numbers of a resource after substitution: width, height, extent and size.
pub struct ResourceNumbers {
    pub width: Option<nat>,
    pub height: Option<nat>,
    pub extent: Option<(nat, nat)>,
    pub size: Option<nat>,
}

/// The numbers of a resource, resolved in the order width, height, extent, size.
pub open spec fn resolve_resource(
    name: Seq<char>,
    r: ResourceSource,
    args: Map<Seq<char>, String>,
) -> Result<ResourceNumbers, GraphError<Seq<char>>> {
    match resolve_optional(r.width, args, max_u32(), name) {
        Err(e) => Err(e),
        Ok(width) => match resolve_optional(r.height, args, max_u32(), name) {
            Err(e) => Err(e),
            Ok(height) => match resolve_extent(r.extent, args, name) {
                Err(e) => Err(e),
                Ok(extent) => match resolve_optional(r.size, args, max_u64(), name) {
                    Err(e) => Err(e),
                    Ok(size) => Ok(ResourceNumbers { width, height, extent, size }),
                },
            },
        },
    }
}

/// The two values of an extent.
pub open spec fn resolve_extent(
    extent: Option<[GraphValue; 2]>,
    args: Map<Seq<char>, String>,
    owner: Seq<char>,
) -> Result<Option<(nat, nat)>, GraphError<Seq<char>>> {
    match extent {
        None => Ok(None),
        Some(e) => match resolve_value(e@[0], args, max_u32(), owner) {
            Err(err) => Err(err),
            Ok(w) => match resolve_value(e@[1], args, max_u32(), owner) {
                Err(err) => Err(err),
                Ok(h) => Ok(Some((w, h))),
            },
        },
    }
}

/// An optional number as an optional 32-bit value.
pub open spec fn as_u32(v: Option<nat>) -> Option<u32> {
    match v {
        None => None,
        Some(n) => Some(n as u32),
    }
}

/// The resolved resource `d` is the source resource `r` with `numbers` filled in.
pub open spec fn resource_resolved(d: ResourceDefinition, r: ResourceSource, numbers: ResourceNumbers) -> bool {
    &&& d.kind == r.kind
    &&& d.width == as_u32(numbers.width)
    &&& d.height == as_u32(numbers.height)
    &&& match numbers.extent {
        None => d.extent is None,
        Some((w, h)) => d.extent is Some && d.extent.unwrap()@ == seq![w as u32, h as u32],
    }
    &&& d.size == match numbers.size {
        None => None::<u64>,
        Some(s) => Some(s as u64),
    }
    &&& d.input == r.input
    &&& d.format == r.format
    &&& d.output == r.output
}

/// The three dispatch dimensions of a node.
pub open spec fn resolve_dispatch(
    n: ComputeNodeSource,
    args: Map<Seq<char>, String>,
) -> Result<(nat, nat, nat), GraphError<Seq<char>>> {
    match resolve_value(n.dispatch@[0], args, max_u32(), n.name@) {
        Err(e) => Err(e),
        Ok(x) => match resolve_value(n.dispatch@[1], args, max_u32(), n.name@) {
            Err(e) => Err(e),
            Ok(y) => match resolve_value(n.dispatch@[2], args, max_u32(), n.name@) {
                Err(e) => Err(e),
                Ok(z) => Ok((x, y, z)),
            },
        },
    }
}

/// The resolved node `d` is the source node `n` with its dispatch filled in.
pub open spec fn node_resolved(d: ComputeNodeDefinition, n: ComputeNodeSource, dispatch: (nat, nat, nat)) -> bool {
    &&& d.name == n.name
    &&& d.shader == n.shader
    &&& d.kernel == n.kernel
    &&& d.dispatch@ == seq![dispatch.0 as u32, dispatch.1 as u32, dispatch.2 as u32]
    &&& d.bindings@ == n.bindings@
}

/// The error outcome of a resolution step.
pub open spec fn failure<T>(r: Result<T, GraphError<Seq<char>>>) -> Option<GraphError<Seq<char>>> {
    match r {
        Ok(_) => None,
        Err(e) => Some(e),
    }
}

/// Each override, in name order, must name a declared argument.
pub open spec fn override_errors(
    declared: Map<Seq<char>, String>,
    overrides: NameMap<String>,
) -> Seq<Option<GraphError<Seq<char>>>> {
    Seq::new(
        overrides.keys().len(),
        |i: int|
            if declared.contains_key(overrides.keys()[i]) {
                None
            } else {
                Some(GraphError::UndeclaredOverride { argument: overrides.keys()[i] })
            },
    )
}

/// The argument values in effect: the declared values, replaced by overrides.
pub open spec fn effective_arguments(
    source: ComputeGraphSource,
    overrides: NameMap<String>,
) -> Map<Seq<char>, String> {
    source.arguments@.union_prefer_right(overrides@)
}

/// The resolution of each resource, in name order.
pub open spec fn resource_resolution_errors(
    source: ComputeGraphSource,
    args: Map<Seq<char>, String>,
) -> Seq<Option<GraphError<Seq<char>>>> {
    Seq::new(
        source.resources.keys().len(),
        |i: int|
            failure(resolve_resource(source.resources.keys()[i], source.resources.values()[i], args)),
    )
}

/// The resolution of each node, in order.
pub open spec fn node_resolution_errors(
    source: ComputeGraphSource,
    args: Map<Seq<char>, String>,
) -> Seq<Option<GraphError<Seq<char>>>> {
    Seq::new(source.nodes@.len(), |i: int| failure(resolve_dispatch(source.nodes@[i], args)))
}

/// The first error of substituting the arguments of a graph.
pub open spec fn resolution_error(
    source: ComputeGraphSource,
    overrides: NameMap<String>,
) -> Option<GraphError<Seq<char>>> {
    let args = effective_arguments(source, overrides);
    if first_error(override_errors(source.arguments@, overrides)) is Some {
        first_error(override_errors(source.arguments@, overrides))
    } else if first_error(resource_resolution_errors(source, args)) is Some {
        first_error(resource_resolution_errors(source, args))
    } else {
        first_error(node_resolution_errors(source, args))
    }
}

/// The number a field value stands for under the given arguments: a
/// non-negative integer stands for itself, and a `$name` or `${name}`
/// reference for the unsigned decimal value of the argument it names.
pub open spec fn denoted(v: GraphValue, args: Map<Seq<char>, String>) -> Option<nat> {
    match v {
        GraphValue::Integer(i) => if i >= 0 {
            Some(i as nat)
        } else {
            None
        },
        GraphValue::Text(t) => match reference_name(t@) {
            Some(name) => if args.contains_key(name) {
                unsigned_value(args[name]@)
            } else {
                None
            },
            None => None,
        },
    }
}

/// A field that resolves takes the number its value stands for, within the
/// field's range.
pub proof fn lemma_resolved_value_is_denoted(
    v: GraphValue,
    args: Map<Seq<char>, String>,
    max: nat,
    owner: Seq<char>,
)
    requires
        resolve_value(v, args, max, owner) is Ok,
    ensures
        denoted(v, args) == Some(resolve_value(v, args, max, owner)->Ok_0),
        resolve_value(v, args, max, owner)->Ok_0 <= max,
{
}

/// Each dispatch dimension of a resolved node is the number its source
/// field, at the same position, stands for.
pub proof fn lemma_dispatch_positions(
    n: ComputeNodeSource,
    args: Map<Seq<char>, String>,
    d: ComputeNodeDefinition,
)
    requires
        resolve_dispatch(n, args) is Ok,
        node_resolved(d, n, resolve_dispatch(n, args)->Ok_0),
    ensures
        d.dispatch@.len() == 3,
        forall|k: int| 0 <= k < 3 ==> denoted(n.dispatch@[k], args) == Some(#[trigger] d.dispatch@[k] as nat),
        d.name == n.name,
        d.shader == n.shader,
        d.kernel == n.kernel,
        d.bindings@ == n.bindings@,
{
    lemma_resolved_value_is_denoted(n.dispatch@[0], args, max_u32(), n.name@);
    lemma_resolved_value_is_denoted(n.dispatch@[1], args, max_u32(), n.name@);
    lemma_resolved_value_is_denoted(n.dispatch@[2], args, max_u32(), n.name@);
    assert forall|k: int| 0 <= k < 3 implies denoted(n.dispatch@[k], args) == Some(
        #[trigger] d.dispatch@[k] as nat,
    ) by {
        if k == 0 {
        } else if k == 1 {
        } else {
        }
    }
}

/// The numbers of a resolved resource are the numbers its source fields
/// stand for, field by field and, for the extent, position by position; the
/// other fields are copied.
pub proof fn lemma_resource_numbers(
    name: Seq<char>,
    r: ResourceSource,
    args: Map<Seq<char>, String>,
    d: ResourceDefinition,
)
    requires
        resolve_resource(name, r, args) is Ok,
        resource_resolved(d, r, resolve_resource(name, r, args)->Ok_0),
    ensures
        r.width is None <==> d.width is None,
        r.width is Some ==> denoted(r.width->Some_0, args) == Some(d.width->Some_0 as nat),
        r.height is None <==> d.height is None,
        r.height is Some ==> denoted(r.height->Some_0, args) == Some(d.height->Some_0 as nat),
        r.extent is None <==> d.extent is None,
        r.extent is Some ==> forall|k: int|
            0 <= k < 2 ==> denoted(r.extent->Some_0@[k], args) == Some(
                #[trigger] d.extent->Some_0@[k] as nat,
            ),
        r.size is None <==> d.size is None,
        r.size is Some ==> denoted(r.size->Some_0, args) == Some(d.size->Some_0 as nat),
        d.kind == r.kind,
        d.input == r.input,
        d.format == r.format,
        d.output == r.output,
{
    if r.width is Some {
        lemma_resolved_value_is_denoted(r.width->Some_0, args, max_u32(), name);
    }
    if r.height is Some {
        lemma_resolved_value_is_denoted(r.height->Some_0, args, max_u32(), name);
    }
    if r.extent is Some {
        let e = r.extent->Some_0;
        lemma_resolved_value_is_denoted(e@[0], args, max_u32(), name);
        lemma_resolved_value_is_denoted(e@[1], args, max_u32(), name);
        assert forall|k: int| 0 <= k < 2 implies denoted(e@[k], args) == Some(
            #[trigger] d.extent->Some_0@[k] as nat,
        ) by {
            if k == 0 {
            } else {
            }
        }
    }
    if r.size is Some {
        lemma_resolved_value_is_denoted(r.size->Some_0, args, max_u64(), name);
    }
}

/// Parses one or more decimal digits: `None` when the text is not such a
/// number, `Some(None)` when its value exceeds `u64::MAX`.
pub fn parse_unsigned(s: &str) -> (r: Option<Option<u64>>)
    ensures
        match r {
            None => unsigned_value(s@) is None,
            Some(None) => unsigned_value(s@) is Some && unsigned_value(s@).unwrap() > max_u64(),
            Some(Some(v)) => unsigned_value(s@) == Some(v as nat),
        },
{
    let chars = chars_of(s);
    let n = chars.len();
    if n == 0 {
        return None;
    }
    let mut value: u64 = 0;
    let mut too_large = false;
    let mut i: usize = 0;
    while i < n
        invariant
            chars@ == s@,
            n == s@.len(),
            i <= n,
            forall|j: int| 0 <= j < i ==> is_digit(#[trigger] s@[j]),
            too_large ==> digits_value(s@.subrange(0, i as int)) > max_u64(),
            !too_large ==> digits_value(s@.subrange(0, i as int)) == value,
        decreases n - i,
    {
        let c = chars[i];
        if !('0' <= c && c <= '9') {
            return None;
        }
        let d: u64 = (c as u32 - 48) as u64;
        proof {
            assert(s@.subrange(0, i + 1).drop_last() =~= s@.subrange(0, i as int));
            assert(s@.subrange(0, i + 1).last() == c);
        }
        if !too_large {
            if value > (0xffff_ffff_ffff_ffffu64 - d) / 10 {
                too_large = true;
            } else {
                value = value * 10 + d;
            }
        } else {
            proof {
                let prefix = digits_value(s@.subrange(0, i as int));
                assert(prefix * 10 + d >= prefix) by (nonlinear_arith);
            }
        }
        i = i + 1;
    }
    proof {
        assert(s@.subrange(0, n as int) =~= s@);
    }
    if too_large {
        Some(None)
    } else {
        Some(Some(value))
    }
}

/// The argument named by a reference, if the text is one.
fn reference_of(t: &str) -> (r: Option<String>)
    ensures
        match r {
            None => reference_name(t@) is None,
            Some(name) => reference_name(t@) == Some(name@),
        },
{
    let n = t.unicode_len();
    if n >= 4 && t.get_char(0) == '$' && t.get_char(1) == '{' && t.get_char(n - 1) == '}' {
        Some(t.substring_char(2, n - 1).to_owned())
    } else if n >= 2 && t.get_char(0) == '$' && t.get_char(1) != '{' {
        Some(t.substring_char(1, n).to_owned())
    } else {
        None
    }
}

/// Resolves a numeric field of `owner` whose largest allowed value is `max`.
pub fn resolve_number(
    v: &GraphValue,
    args: &NameMap<String>,
    max: u64,
    owner: &String,
) -> (r: Result<u64, ComputeGraphError>)
    ensures
        match r {
            Ok(n) => resolve_value(*v, args@, max as nat, owner@) == Ok::<
                nat,
                GraphError<Seq<char>>,
            >(n as nat),
            Err(e) => resolve_value(*v, args@, max as nat, owner@) == Err::<
                nat,
                GraphError<Seq<char>>,
            >(e@),
        },
{
    match v {
        GraphValue::Integer(n) => {
            if *n < 0 || (*n as u64) > max {
                Err(GraphError::ValueOutOfRange { owner: owner.clone() })
            } else {
                Ok(*n as u64)
            }
        },
        GraphValue::Text(t) => match reference_of(t.as_str()) {
            None => Err(GraphError::MalformedReference { text: t.clone() }),
            Some(name) => match args.get(name.as_str()) {
                None => Err(GraphError::UndeclaredArgument { argument: name }),
                Some(value) => match parse_unsigned(value.as_str()) {
                    None => Err(GraphError::ArgumentNotInteger { argument: name, value: value.clone() }),
                    Some(None) => Err(GraphError::ValueOutOfRange { owner: owner.clone() }),
                    Some(Some(x)) => {
                        if x > max {
                            Err(GraphError::ValueOutOfRange { owner: owner.clone() })
                        } else {
                            Ok(x)
                        }
                    },
                },
            },
        },
    }
}

/// Resolves an optional numeric field.
fn resolve_optional_number(
    v: &Option<GraphValue>,
    args: &NameMap<String>,
    max: u64,
    owner: &String,
) -> (r: Result<Option<u64>, ComputeGraphError>)
    ensures
        match r {
            Ok(n) => resolve_optional(*v, args@, max as nat, owner@) == Ok::<
                Option<nat>,
                GraphError<Seq<char>>,
            >(
                match n {
                    None => None,
                    Some(x) => Some(x as nat),
                },
            ),
            Err(e) => resolve_optional(*v, args@, max as nat, owner@) == Err::<
                Option<nat>,
                GraphError<Seq<char>>,
            >(e@),
        },
{
    match v {
        None => Ok(None),
        Some(x) => {
            let n = resolve_number(x, args, max, owner)?;
            Ok(Some(n))
        },
    }
}

/// A copy of an optional text.
fn copy_text(t: &Option<String>) -> (r: Option<String>)
    ensures
        r == *t,
{
    match t {
        None => None,
        Some(s) => Some(s.clone()),
    }
}

/// A copy of a node's bindings.
pub fn copy_bindings(bindings: &Vec<ResourceBindingDefinition>) -> (r: Vec<ResourceBindingDefinition>)
    ensures
        r@ == bindings@,
{
    let mut r: Vec<ResourceBindingDefinition> = Vec::new();
    let mut i: usize = 0;
    while i < bindings.len()
        invariant
            i <= bindings@.len(),
            r@ == bindings@.subrange(0, i as int),
        decreases bindings@.len() - i,
    {
        r.push(
            ResourceBindingDefinition {
                resource: bindings[i].resource.clone(),
                access: bindings[i].access,
            },
        );
        i = i + 1;
    }
    assert(bindings@.subrange(0, bindings@.len() as int) =~= bindings@);
    r
}

/// Substitutes the arguments of one resource.
fn resolve_resource_source(name: &String, r: &ResourceSource, args: &NameMap<String>) -> (res:
    Result<ResourceDefinition, ComputeGraphError>)
    ensures
        match res {
            Ok(d) => resolve_resource(name@, *r, args@) is Ok && resource_resolved(
                d,
                *r,
                resolve_resource(name@, *r, args@)->Ok_0,
            ),
            Err(e) => resolve_resource(name@, *r, args@) == Err::<
                ResourceNumbers,
                GraphError<Seq<char>>,
            >(e@),
        },
{
    let width = resolve_optional_number(&r.width, args, 0xffff_ffff, name)?;
    let height = resolve_optional_number(&r.height, args, 0xffff_ffff, name)?;
    let extent: Option<[u32; 2]> = match &r.extent {
        None => None,
        Some(e) => {
            let w = resolve_number(&e[0], args, 0xffff_ffff, name)?;
            let h = resolve_number(&e[1], args, 0xffff_ffff, name)?;
            let pair: [u32; 2] = [w as u32, h as u32];
            assert(pair@ =~= seq![w as u32, h as u32]);
            Some(pair)
        },
    };
    let size = resolve_optional_number(&r.size, args, 0xffff_ffff_ffff_ffff, name)?;
    let d = ResourceDefinition {
        kind: r.kind,
        width: match width {
            None => None,
            Some(w) => Some(w as u32),
        },
        height: match height {
            None => None,
            Some(h) => Some(h as u32),
        },
        extent,
        size,
        input: copy_text(&r.input),
        format: r.format,
        output: copy_text(&r.output),
    };
    Ok(d)
}

/// Substitutes the arguments of one node.
fn resolve_node_source(n: &ComputeNodeSource, args: &NameMap<String>) -> (res: Result<
    ComputeNodeDefinition,
    ComputeGraphError,
>)
    ensures
        match res {
            Ok(d) => resolve_dispatch(*n, args@) is Ok && node_resolved(
                d,
                *n,
                resolve_dispatch(*n, args@)->Ok_0,
            ),
            Err(e) => resolve_dispatch(*n, args@) == Err::<(nat, nat, nat), GraphError<Seq<char>>>(
                e@,
            ),
        },
{
    let x = resolve_number(&n.dispatch[0], args, 0xffff_ffff, &n.name)?;
    let y = resolve_number(&n.dispatch[1], args, 0xffff_ffff, &n.name)?;
    let z = resolve_number(&n.dispatch[2], args, 0xffff_ffff, &n.name)?;
    let dispatch: [u32; 3] = [x as u32, y as u32, z as u32];
    assert(dispatch@ =~= seq![x as u32, y as u32, z as u32]);
    Ok(
        ComputeNodeDefinition {
            name: n.name.clone(),
            shader: n.shader.clone(),
            kernel: n.kernel.clone(),
            dispatch,
            bindings: copy_bindings(&n.bindings),
        },
    )
}

/// The argument values in effect, after checking that every override names a
/// declared argument.
fn effective_argument_map(declared: &NameMap<String>, overrides: &NameMap<String>) -> (r: Result<
    NameMap<String>,
    ComputeGraphError,
>)
    ensures
        match r {
            Ok(m) => {
                &&& first_error(override_errors(declared@, *overrides)) is None
                &&& m@ == declared@.union_prefer_right(overrides@)
            },
            Err(e) => first_error(override_errors(declared@, *overrides)) == Some(e@),
        },
{
    proof {
        use_type_invariant(overrides);
        use_type_invariant(declared);
    }
    let ghost errors = override_errors(declared@, *overrides);
    let n = overrides.len();
    let mut i: usize = 0;
    while i < n
        invariant
            n == overrides.keys().len(),
            overrides.well_formed(),
            errors == override_errors(declared@, *overrides),
            i <= n,
            forall|j: int| 0 <= j < i ==> errors[j] is None,
        decreases n - i,
    {
        let name = overrides.name_at(i);
        if !declared.contains(name.as_str()) {
            proof {
                lemma_first_error_at(errors, i as int);
            }
            return Err(GraphError::UndeclaredOverride { argument: name.clone() });
        }
        i = i + 1;
    }
    proof {
        lemma_first_error_none(errors);
        assert forall|k: Seq<char>| overrides@.contains_key(k) implies declared@.contains_key(k) by {
            let j = overrides.keys().index_of(k);
            assert(errors[j] is None);
        }
    }
    let mut m: NameMap<String> = NameMap::new();
    let count = declared.len();
    let mut j: usize = 0;
    while j < count
        invariant
            count == declared.keys().len(),
            declared.well_formed(),
            j <= count,
            forall|k: Seq<char>| overrides@.contains_key(k) ==> declared@.contains_key(k),
            m@ == Map::new(
                |k: Seq<char>| declared.keys().subrange(0, j as int).contains(k),
                |k: Seq<char>| declared@.union_prefer_right(overrides@)[k],
            ),
        decreases count - j,
    {
        let name = declared.name_at(j);
        let value = match overrides.get(name.as_str()) {
            Some(v) => v.clone(),
            None => declared.value_at(j).clone(),
        };
        proof {
            crate::name_map::lemma_map_of_at(declared.keys(), declared.values(), j as int);
        }
        m.insert(name.clone(), value);
        proof {
            assert forall|k: Seq<char>| #[trigger] declared.keys().subrange(0, j + 1).contains(k)
                == (declared.keys().subrange(0, j as int).contains(k) || k == name@) by {
                if declared.keys().subrange(0, j + 1).contains(k) {
                    let x = declared.keys().subrange(0, j + 1).index_of(k);
                    if x < j {
                        assert(declared.keys().subrange(0, j as int)[x] == k);
                    }
                }
                if declared.keys().subrange(0, j as int).contains(k) {
                    let x = declared.keys().subrange(0, j as int).index_of(k);
                    assert(declared.keys().subrange(0, j + 1)[x] == k);
                }
                if k == name@ {
                    assert(declared.keys().subrange(0, j + 1)[j as int] == k);
                }
            }
            assert(m@ =~= Map::new(
                |k: Seq<char>| declared.keys().subrange(0, j + 1).contains(k),
                |k: Seq<char>| declared@.union_prefer_right(overrides@)[k],
            ));
        }
        j = j + 1;
    }
    proof {
        assert(declared.keys().subrange(0, count as int) =~= declared.keys());
        assert(m@ =~= declared@.union_prefer_right(overrides@));
    }
    Ok(m)
}

impl ComputeGraphSource {
    /// Substitutes the graph's arguments, with `overrides` replacing declared
    /// values. Every override must name a declared argument.
    pub fn resolve(&self, overrides: &NameMap<String>) -> (r: Result<
        ComputeGraphDefinition,
        ComputeGraphError,
    >)
        ensures
            match r {
                Ok(d) => {
                    &&& resolution_error(*self, *overrides) is None
                    &&& d.arguments@ == effective_arguments(*self, *overrides)
                    &&& d.resources.keys() == self.resources.keys()
                    &&& forall|i: int|
                        0 <= i < self.resources.keys().len() ==> resource_resolved(
                            #[trigger] d.resources.values()[i],
                            self.resources.values()[i],
                            resolve_resource(
                                self.resources.keys()[i],
                                self.resources.values()[i],
                                effective_arguments(*self, *overrides),
                            )->Ok_0,
                        )
                    &&& forall|i: int, k: int|
                        0 <= i < self.nodes@.len() && 0 <= k < 3 ==> denoted(
                            self.nodes@[i].dispatch@[k],
                            effective_arguments(*self, *overrides),
                        ) == Some(#[trigger] d.nodes@[i].dispatch@[k] as nat)
                    &&& forall|i: int, k: int|
                        0 <= i < self.resources.keys().len() && 0 <= k < 2
                            && self.resources.values()[i].extent is Some ==> denoted(
                            self.resources.values()[i].extent->Some_0@[k],
                            effective_arguments(*self, *overrides),
                        ) == Some(#[trigger] d.resources.values()[i].extent->Some_0@[k] as nat)
                    &&& forall|i: int|
                        0 <= i < self.resources.keys().len() ==> {
                            let r = self.resources.values()[i];
                            let x = #[trigger] d.resources.values()[i];
                            let args = effective_arguments(*self, *overrides);
                            &&& (r.extent is None <==> x.extent is None)
                            &&& (r.width is None <==> x.width is None)
                            &&& (r.width is Some ==> denoted(r.width->Some_0, args) == Some(
                                x.width->Some_0 as nat,
                            ))
                            &&& (r.height is None <==> x.height is None)
                            &&& (r.height is Some ==> denoted(r.height->Some_0, args) == Some(
                                x.height->Some_0 as nat,
                            ))
                            &&& (r.size is None <==> x.size is None)
                            &&& (r.size is Some ==> denoted(r.size->Some_0, args) == Some(
                                x.size->Some_0 as nat,
                            ))
                        }
                    &&& d.nodes@.len() == self.nodes@.len()
                    &&& forall|i: int|
                        0 <= i < self.nodes@.len() ==> node_resolved(
                            #[trigger] d.nodes@[i],
                            self.nodes@[i],
                            resolve_dispatch(
                                self.nodes@[i],
                                effective_arguments(*self, *overrides),
                            )->Ok_0,
                        )
                },
                Err(e) => resolution_error(*self, *overrides) == Some(e@),
            },
    {
        proof {
            use_type_invariant(&self.resources);
        }
        let args = effective_argument_map(&self.arguments, overrides)?;
        let ghost eff = effective_arguments(*self, *overrides);
        assert(args@ == eff);
        let ghost res_errors = resource_resolution_errors(*self, eff);
        let mut resources: NameMap<ResourceDefinition> = NameMap::new();
        proof {
            use_type_invariant(&resources);
        }
        let n = self.resources.len();
        let mut i: usize = 0;
        while i < n
            invariant
                n == self.resources.keys().len(),
                self.resources.well_formed(),
                args@ == eff,
                eff == effective_arguments(*self, *overrides),
                res_errors == resource_resolution_errors(*self, eff),
                first_error(override_errors(self.arguments@, *overrides)) is None,
                i <= n,
                forall|j: int| 0 <= j < i ==> res_errors[j] is None,
                resources.keys() == self.resources.keys().subrange(0, i as int),
                resources.values().len() == i,
                forall|j: int|
                    0 <= j < i ==> resource_resolved(
                        #[trigger] resources.values()[j],
                        self.resources.values()[j],
                        resolve_resource(self.resources.keys()[j], self.resources.values()[j], eff)->Ok_0,
                    ),
            decreases n - i,
        {
            let name = self.resources.name_at(i);
            match resolve_resource_source(name, self.resources.value_at(i), &args) {
                Ok(d) => {
                    let ghost before = resources.values();
                    proof {
                        assert forall|j: int| 0 <= j < resources.keys().len() implies name_lt(
                            #[trigger] resources.keys()[j],
                            name@,
                        ) by {
                            assert(resources.keys()[j] == self.resources.keys()[j]);
                        }
                    }
                    resources.insert(name.clone(), d);
                    proof {
                        assert(self.resources.keys().subrange(0, i + 1) =~= self.resources.keys().subrange(
                            0,
                            i as int,
                        ).push(name@));
                        assert forall|j: int| 0 <= j < i + 1 implies resource_resolved(
                            #[trigger] resources.values()[j],
                            self.resources.values()[j],
                            resolve_resource(self.resources.keys()[j], self.resources.values()[j], eff)->Ok_0,
                        ) by {
                            if j < i {
                                assert(resources.values()[j] == before[j]);
                            }
                        }
                    }
                },
                Err(e) => {
                    proof {
                        lemma_first_error_at(res_errors, i as int);
                        assert(first_error(resource_resolution_errors(*self, eff)) == Some(e@));
                        assert(resolution_error(*self, *overrides) == Some(e@));
                    }
                    return Err(e);
                },
            }
            i = i + 1;
        }
        proof {
            lemma_first_error_none(res_errors);
            assert(self.resources.keys().subrange(0, n as int) =~= self.resources.keys());
        }
        let ghost node_errors = node_resolution_errors(*self, eff);
        let mut nodes: Vec<ComputeNodeDefinition> = Vec::new();
        let count = self.nodes.len();
        let mut k: usize = 0;
        while k < count
            invariant
                count == self.nodes@.len(),
                args@ == eff,
                eff == effective_arguments(*self, *overrides),
                node_errors == node_resolution_errors(*self, eff),
                first_error(override_errors(self.arguments@, *overrides)) is None,
                first_error(resource_resolution_errors(*self, eff)) is None,
                k <= count,
                forall|j: int| 0 <= j < k ==> node_errors[j] is None,
                nodes@.len() == k,
                forall|j: int|
                    0 <= j < k ==> node_resolved(
                        #[trigger] nodes@[j],
                        self.nodes@[j],
                        resolve_dispatch(self.nodes@[j], eff)->Ok_0,
                    ),
            decreases count - k,
        {
            match resolve_node_source(&self.nodes[k], &args) {
                Ok(d) => {
                    nodes.push(d);
                },
                Err(e) => {
                    proof {
                        lemma_first_error_at(node_errors, k as int);
                    }
                    return Err(e);
                },
            }
            k = k + 1;
        }
        proof {
            lemma_first_error_none(node_errors);
            assert forall|i: int, k: int| 0 <= i < self.nodes@.len() && 0 <= k < 3 implies denoted(
                self.nodes@[i].dispatch@[k],
                eff,
            ) == Some(#[trigger] nodes@[i].dispatch@[k] as nat) by {
                assert(node_errors[i] is None);
                lemma_dispatch_positions(self.nodes@[i], eff, nodes@[i]);
            }
            assert forall|i: int| 0 <= i < self.resources.keys().len() implies {
                let r = self.resources.values()[i];
                let x = #[trigger] resources.values()[i];
                &&& (r.extent is None <==> x.extent is None)
                &&& (r.extent is Some ==> forall|k: int|
                    0 <= k < 2 ==> denoted(r.extent->Some_0@[k], eff) == Some(
                        #[trigger] x.extent->Some_0@[k] as nat,
                    ))
                &&& (r.width is None <==> x.width is None)
                &&& (r.width is Some ==> denoted(r.width->Some_0, eff) == Some(x.width->Some_0 as nat))
                &&& (r.height is None <==> x.height is None)
                &&& (r.height is Some ==> denoted(r.height->Some_0, eff) == Some(
                    x.height->Some_0 as nat,
                ))
                &&& (r.size is None <==> x.size is None)
                &&& (r.size is Some ==> denoted(r.size->Some_0, eff) == Some(x.size->Some_0 as nat))
            } by {
                assert(res_errors[i] is None);
                lemma_resource_numbers(
                    self.resources.keys()[i],
                    self.resources.values()[i],
                    eff,
                    resources.values()[i],
                );
            }
            assert forall|i: int, k: int|
                0 <= i < self.resources.keys().len() && 0 <= k < 2
                    && self.resources.values()[i].extent is Some implies denoted(
                self.resources.values()[i].extent->Some_0@[k],
                eff,
            ) == Some(#[trigger] resources.values()[i].extent->Some_0@[k] as nat) by {
                assert(res_errors[i] is None);
                lemma_resource_numbers(
                    self.resources.keys()[i],
                    self.resources.values()[i],
                    eff,
                    resources.values()[i],
                );
            }
        }
        Ok(ComputeGraphDefinition { arguments: args, resources, nodes })
    }
}

/// The position of the first `=` in the text.
pub open spec fn first_equals(s: Seq<char>) -> Option<int> {
    if exists|i: int| 0 <= i < s.len() && s[i] == '=' {
        Some(
            choose|i: int|
                0 <= i < s.len() && s[i] == '=' && forall|j: int| 0 <= j < i ==> s[j] != '=',
        )
    } else {
        None
    }
}

/// The message for an argument that lacks `=`.
pub open spec fn missing_equals_text(raw: Seq<char>) -> Seq<char> {
    "graph argument `"@ + raw + "` must use NAME=VALUE syntax"@
}

/// The message for an argument with an empty name.
pub open spec fn empty_name_text() -> Seq<char> {
    "graph argument names must not be empty"@
}

/// The message for an argument given twice.
pub open spec fn repeated_text(name: Seq<char>) -> Seq<char> {
    "graph argument `"@ + name + "` was specified more than once"@
}

/// The outcome of adding one command-line argument `NAME=VALUE` to the
/// arguments parsed so far.
pub open spec fn parse_step(m: Map<Seq<char>, Seq<char>>, raw: Seq<char>) -> Result<
    Map<Seq<char>, Seq<char>>,
    Seq<char>,
> {
    match first_equals(raw) {
        None => Err(missing_equals_text(raw)),
        Some(p) => {
            let name = raw.subrange(0, p);
            if name.len() == 0 {
                Err(empty_name_text())
            } else if m.contains_key(name) {
                Err(repeated_text(name))
            } else {
                Ok(m.insert(name, raw.subrange(p + 1, raw.len() as int)))
            }
        },
    }
}

/// The outcome of parsing the command-line arguments `NAME=VALUE` in order.
pub open spec fn parsed_arguments(raws: Seq<Seq<char>>) -> Result<Map<Seq<char>, Seq<char>>, Seq<char>>
    decreases raws.len(),
{
    if raws.len() == 0 {
        Ok(Map::empty())
    } else {
        match parsed_arguments(raws.drop_last()) {
            Err(e) => Err(e),
            Ok(m) => parse_step(m, raws.last()),
        }
    }
}

/// Once a prefix of the arguments fails to parse, the whole list fails with
/// the same message.
proof fn lemma_parse_error_persists(raws: Seq<Seq<char>>, k: int, e: Seq<char>)
    requires
        0 <= k <= raws.len(),
        parsed_arguments(raws.subrange(0, k)) == Err::<Map<Seq<char>, Seq<char>>, Seq<char>>(e),
    ensures
        parsed_arguments(raws) == Err::<Map<Seq<char>, Seq<char>>, Seq<char>>(e),
    decreases raws.len(),
{
    if k == raws.len() {
        assert(raws.subrange(0, k) =~= raws);
    } else {
        assert(raws.drop_last().subrange(0, k) =~= raws.subrange(0, k));
        lemma_parse_error_persists(raws.drop_last(), k, e);
    }
}

/// The position of the first `=`, if any.
fn find_equals(s: &Vec<char>) -> (r: Option<usize>)
    ensures
        match r {
            None => first_equals(s@) is None,
            Some(p) => first_equals(s@) == Some(p as int) && p < s.len() && s@[p as int] == '=',
        },
{
    let mut i: usize = 0;
    while i < s.len()
        invariant
            i <= s@.len(),
            forall|j: int| 0 <= j < i ==> s@[j] != '=',
        decreases s@.len() - i,
    {
        if s[i] == '=' {
            proof {
                let q = choose|q: int|
                    0 <= q < s@.len() && s@[q] == '=' && forall|j: int| 0 <= j < q ==> s@[j] != '=';
                assert(q == i as int) by {
                    if q < i {
                    } else if q > i {
                        assert(s@[i as int] == '=');
                    }
                }
            }
            return Some(i);
        }
        i = i + 1;
    }
    None
}

/// The texts of a map of strings.
pub open spec fn texts(m: Map<Seq<char>, String>) -> Map<Seq<char>, Seq<char>> {
    m.map_values(|v: String| v@)
}

/// Adds one argument `NAME=VALUE` to the arguments parsed so far.
fn add_argument(arguments: &mut NameMap<String>, raw: &String) -> (r: Result<(), String>)
    ensures
        match r {
            Ok(()) => parse_step(texts(old(arguments)@), raw@) == Ok::<
                Map<Seq<char>, Seq<char>>,
                Seq<char>,
            >(texts(final(arguments)@)),
            Err(e) => parse_step(texts(old(arguments)@), raw@) == Err::<
                Map<Seq<char>, Seq<char>>,
                Seq<char>,
            >(e@),
        },
{
    let chars = chars_of(raw.as_str());
    let p = match find_equals(&chars) {
        None => {
            let mut message = String::new();
            message.append("graph argument `");
            message.append(raw.as_str());
            message.append("` must use NAME=VALUE syntax");
            return Err(message);
        },
        Some(p) => p,
    };
    if p == 0 {
        let message = String::from_str("graph argument names must not be empty");
        proof {
            assert(raw@.subrange(0, 0).len() == 0);
        }
        return Err(message);
    }
    let name = raw.as_str().substring_char(0, p).to_owned();
    let value = raw.as_str().substring_char(p + 1, chars.len()).to_owned();
    if arguments.contains(name.as_str()) {
        let mut message = String::new();
        message.append("graph argument `");
        message.append(name.as_str());
        message.append("` was specified more than once");
        proof {
            assert(texts(arguments@).contains_key(name@));
        }
        return Err(message);
    }
    let ghost before = arguments@;
    arguments.insert(name, value);
    proof {
        assert(!texts(before).contains_key(raw@.subrange(0, p as int)));
        assert(texts(arguments@) =~= texts(before).insert(
            raw@.subrange(0, p as int),
            raw@.subrange(p + 1, raw@.len() as int),
        ));
    }
    Ok(())
}

/// Parses graph argument overrides given as `NAME=VALUE`, in order. A name
/// must not be empty and must not be given twice.
pub fn parse_arguments(raw_arguments: &Vec<String>) -> (r: Result<NameMap<String>, String>)
    ensures
        match r {
            Ok(m) => parsed_arguments(raw_arguments@.map_values(|s: String| s@)) == Ok::<
                Map<Seq<char>, Seq<char>>,
                Seq<char>,
            >(texts(m@)),
            Err(e) => parsed_arguments(raw_arguments@.map_values(|s: String| s@)) == Err::<
                Map<Seq<char>, Seq<char>>,
                Seq<char>,
            >(e@),
        },
{
    let ghost raws = raw_arguments@.map_values(|s: String| s@);
    let mut arguments: NameMap<String> = NameMap::new();
    proof {
        assert(raws.subrange(0, 0) =~= Seq::<Seq<char>>::empty());
        assert(texts(arguments@) =~= Map::<Seq<char>, Seq<char>>::empty());
    }
    let mut i: usize = 0;
    while i < raw_arguments.len()
        invariant
            raws == raw_arguments@.map_values(|s: String| s@),
            i <= raw_arguments@.len(),
            parsed_arguments(raws.subrange(0, i as int)) == Ok::<
                Map<Seq<char>, Seq<char>>,
                Seq<char>,
            >(texts(arguments@)),
        decreases raw_arguments@.len() - i,
    {
        let raw = &raw_arguments[i];
        proof {
            let prefix = raws.subrange(0, i + 1);
            assert(prefix.drop_last() =~= raws.subrange(0, i as int));
            assert(prefix.last() == raw@);
        }
        match add_argument(&mut arguments, raw) {
            Ok(()) => {},
            Err(e) => {
                proof {
                    lemma_parse_error_persists(raws, i + 1, e@);
                }
                return Err(e);
            },
        }
        i = i + 1;
    }
    proof {
        assert(raws.subrange(0, raw_arguments@.len() as int) =~= raws);
    }
    Ok(arguments)
}

} // verus!
