//! The rules of the `#[component]` attribute: which functions can be turned
//! into components, and which error a function that cannot is refused with.
//!
//! A component function takes a context and props, and returns
//! `impl Element<Event = SomeType>`; the event type of the component is read
//! from that `Event` binding. The parsed function is described here by plain
//! values: what the rules look at, and nothing else.
use vstd::prelude::*;

verus! {

/// An argument of the function: `name: Type`, or a `self` receiver.
#[derive(Clone, Copy, Debug, PartialEq, Eq, Structural)]
pub enum FnArgKind {
    Typed,
    Receiver,
}

/// A generic argument of a path segment, such as `Event = MyEvent` in
/// `Element<Event = MyEvent>`.
#[derive(Clone, Debug)]
pub enum GenericArgModel {
    /// An associated type binding, `Name = Type`, with the binding's name.
    Binding(String),
    /// Any other argument: a type, a lifetime, a constant or a constraint.
    Other,
}

/// The arguments of the last segment of a trait's path.
#[derive(Clone, Debug)]
pub enum PathArgsModel {
    /// `Element`
    NoArgs,
    /// `Fn(A) -> B`
    Parenthesized,
    /// `Element<...>`
    AngleBracketed(Vec<GenericArgModel>),
}

/// A bound of an `impl Trait` type.
#[derive(Clone, Debug)]
pub enum BoundModel {
    /// A trait, with the arguments of the last segment of its path.
    Trait(PathArgsModel),
    /// A lifetime, or any other bound.
    Other,
}

/// A type.
#[derive(Clone, Debug)]
pub enum TypeModel {
    /// `impl A + B + ...`, with its bounds in order.
    ImplTrait(Vec<BoundModel>),
    /// Any other type.
    Other,
}

/// The return type of the function.
#[derive(Clone, Debug)]
pub enum ReturnTypeModel {
    /// No `->` at all.
    Default,
    /// `-> Type`
    Type(TypeModel),
}

/// What the rules read of a function marked `#[component]`, and of the
/// attribute itself.
#[derive(Clone, Debug)]
pub struct ComponentFnModel {
    /// The attribute was written without parameters.
    pub attr_is_empty: bool,
    pub is_const: bool,
    pub is_async: bool,
    pub is_unsafe: bool,
    /// The function names an ABI (`"C"` and the like).
    pub has_abi: bool,
    pub generic_param_count: usize,
    pub has_where_clause: bool,
    pub is_variadic: bool,
    pub args: Vec<FnArgKind>,
    pub output: ReturnTypeModel,
}

/// Why a function cannot be a component.
#[derive(Clone, Copy, Debug, PartialEq, Eq, Structural)]
pub enum ComponentError {
    /// The attribute was given parameters.
    AttributeParameters,
    ConstFunction,
    AsyncFunction,
    UnsafeFunction,
    /// The function names an ABI.
    NonStandardAbi,
    GenericParameters,
    WhereClause,
    VariadicArguments,
    /// The function does not take exactly two arguments; holds how many it takes.
    WrongArgumentCount(usize),
    /// The argument at this position (`0` or `1`) is `self`.
    ReceiverArgument(usize),
    MissingReturnType,
    /// The return type is not `impl Trait`.
    ReturnTypeNotImplTrait,
    /// The return type has another bound than a single trait.
    ReturnTypeOtherBounds,
    /// The returned trait has no `Event = ...` binding.
    MissingEventBinding,
}

// ---------------------------------------------------------------------------
// Specification
// ---------------------------------------------------------------------------

/// The generic argument binds the associated type `Event`.
pub open spec fn is_event_binding(arg: GenericArgModel) -> bool {
    match arg {
        GenericArgModel::Binding(name) => name@ == "Event"@,
        GenericArgModel::Other => false,
    }
}

/// `i` is the position of the first `Event` binding of `args`.
pub open spec fn is_first_event_binding(args: Seq<GenericArgModel>, i: int) -> bool {
    &&& 0 <= i < args.len()
    &&& is_event_binding(args[i])
    &&& forall|k: int| 0 <= k < i ==> !is_event_binding(#[trigger] args[k])
}

/// No argument of `args` binds `Event`.
pub open spec fn has_no_event_binding(args: Seq<GenericArgModel>) -> bool {
    forall|k: int| 0 <= k < args.len() ==> !is_event_binding(#[trigger] args[k])
}

/// The generic arguments that the event type is looked for in: those of a
/// trait's path written with angle brackets, and none otherwise.
pub open spec fn bound_generic_args(bound: BoundModel) -> Seq<GenericArgModel> {
    match bound {
        BoundModel::Trait(PathArgsModel::AngleBracketed(args)) => args@,
        _ => Seq::empty(),
    }
}

/// The error with which a return type is refused before its event type is
/// looked for, if any.
pub open spec fn return_type_error(ty: TypeModel) -> Option<ComponentError> {
    match ty {
        TypeModel::Other => Some(ComponentError::ReturnTypeNotImplTrait),
        TypeModel::ImplTrait(bounds) => if bounds@.len() == 1 && bounds@[0] is Trait {
            None
        } else {
            Some(ComponentError::ReturnTypeOtherBounds)
        },
    }
}

/// The error with which the function is refused before its event type is
/// looked for, if any. The rules are checked in this order; the first that
/// fails gives the error.
pub open spec fn signature_error(f: ComponentFnModel) -> Option<ComponentError> {
    if !f.attr_is_empty {
        Some(ComponentError::AttributeParameters)
    } else if f.is_const {
        Some(ComponentError::ConstFunction)
    } else if f.is_async {
        Some(ComponentError::AsyncFunction)
    } else if f.is_unsafe {
        Some(ComponentError::UnsafeFunction)
    } else if f.has_abi {
        Some(ComponentError::NonStandardAbi)
    } else if f.generic_param_count != 0 {
        Some(ComponentError::GenericParameters)
    } else if f.has_where_clause {
        Some(ComponentError::WhereClause)
    } else if f.is_variadic {
        Some(ComponentError::VariadicArguments)
    } else if f.args@.len() != 2 {
        Some(ComponentError::WrongArgumentCount(f.args@.len() as usize))
    } else if f.args@[0] == FnArgKind::Receiver {
        Some(ComponentError::ReceiverArgument(0))
    } else if f.args@[1] == FnArgKind::Receiver {
        Some(ComponentError::ReceiverArgument(1))
    } else {
        match f.output {
            ReturnTypeModel::Default => Some(ComponentError::MissingReturnType),
            ReturnTypeModel::Type(ty) => return_type_error(ty),
        }
    }
}

/// The generic arguments of the first bound of an `impl Trait` type.
pub open spec fn impl_trait_args(ty: TypeModel) -> Seq<GenericArgModel> {
    match ty {
        TypeModel::ImplTrait(bounds) => bound_generic_args(bounds@[0]),
        TypeModel::Other => Seq::empty(),
    }
}

/// The generic arguments of the single trait that the function returns.
pub open spec fn returned_generic_args(f: ComponentFnModel) -> Seq<GenericArgModel> {
    match f.output {
        ReturnTypeModel::Type(ty) => impl_trait_args(ty),
        ReturnTypeModel::Default => Seq::empty(),
    }
}

/// The shape that the documentation gives a component function:
/// `fn Name(ctx: Ctx, props: Props) -> impl Trait<..., Event = E, ...>`, with no
/// qualifier, ABI, generics or variadic argument, and an attribute without
/// parameters.
pub open spec fn has_component_shape(f: ComponentFnModel) -> bool {
    &&& f.attr_is_empty
    &&& !f.is_const && !f.is_async && !f.is_unsafe && !f.has_abi
    &&& f.generic_param_count == 0 && !f.has_where_clause && !f.is_variadic
    &&& f.args@ == seq![FnArgKind::Typed, FnArgKind::Typed]
    &&& f.output matches ReturnTypeModel::Type(TypeModel::ImplTrait(bounds)) && bounds@.len() == 1
        && bounds@[0] is Trait
    &&& exists|i: int| 0 <= i < returned_generic_args(f).len() && is_event_binding(
        #[trigger] returned_generic_args(f)[i],
    )
}

/// Law: the checks accept exactly the functions of the documented shape.
///
/// A function passes every rule and has an `Event` binding (so that
/// [`check_component_fn`] returns `Ok`) if and only if it has the shape of
/// [`has_component_shape`].
pub proof fn lemma_accepted_iff_component_shape(f: ComponentFnModel)
    ensures
        (signature_error(f) is None && !has_no_event_binding(returned_generic_args(f)))
            <==> has_component_shape(f),
{
    if has_component_shape(f) {
        assert(f.args@[0] == FnArgKind::Typed);
        assert(f.args@[1] == FnArgKind::Typed);
    }
    if signature_error(f) is None {
        assert(f.args@ =~= seq![FnArgKind::Typed, FnArgKind::Typed]) by {
            assert(f.args@[0] != FnArgKind::Receiver);
            assert(f.args@[1] != FnArgKind::Receiver);
        }
    }
}

// ---------------------------------------------------------------------------
// Checks
// ---------------------------------------------------------------------------

/// The position of the first `Event` binding among `args`.
fn find_event_binding(args: &Vec<GenericArgModel>) -> (found: Option<usize>)
    ensures
        match found {
            Some(i) => is_first_event_binding(args@, i as int),
            None => has_no_event_binding(args@),
        },
{
    let event_name: String = "Event".to_owned();
    let mut idx: usize = 0;
    while idx < args.len()
        invariant
            idx <= args@.len(),
            event_name@ == "Event"@,
            forall|k: int| 0 <= k < idx ==> !is_event_binding(#[trigger] args@[k]),
        decreases args.len() - idx,
    {
        match &args[idx] {
            GenericArgModel::Binding(name) => {
                if name.eq(&event_name) {
                    return Some(idx);
                }
            },
            GenericArgModel::Other => {},
        }
        idx = idx + 1;
    }
    None
}

/// Reads the event type of a component from its return type.
///
/// The return type must be `impl Trait` with a single trait bound; the result
/// is then the position of the first `Event = ...` binding among the generic
/// arguments of that trait, or `None` if there is none.
pub fn parse_return_ty(ty: &TypeModel) -> (event: Result<Option<usize>, ComponentError>)
    ensures
        match return_type_error(*ty) {
            Some(error) => event == Err::<Option<usize>, ComponentError>(error),
            None => match event {
                Ok(Some(i)) => is_first_event_binding(impl_trait_args(*ty), i as int),
                Ok(None) => has_no_event_binding(impl_trait_args(*ty)),
                Err(_) => false,
            },
        },
{
    match ty {
        TypeModel::Other => Err(ComponentError::ReturnTypeNotImplTrait),
        TypeModel::ImplTrait(bounds) => {
            if bounds.len() != 1 {
                return Err(ComponentError::ReturnTypeOtherBounds);
            }
            match &bounds[0] {
                BoundModel::Trait(PathArgsModel::AngleBracketed(args)) => Ok(find_event_binding(args)),
                BoundModel::Trait(_) => Ok(None),
                BoundModel::Other => Err(ComponentError::ReturnTypeOtherBounds),
            }
        },
    }
}

/// Checks a function marked `#[component]`.
///
/// Returns the position of the `Event` binding that gives the component's
/// event type (see [`parse_return_ty`]), or the error of the first rule that
/// the function breaks (see [`signature_error`] for their order);
/// [`ComponentError::MissingEventBinding`] comes last.
pub fn check_component_fn(f: &ComponentFnModel) -> (checked: Result<usize, ComponentError>)
    ensures
        match signature_error(*f) {
            Some(error) => checked == Err::<usize, ComponentError>(error),
            None => match checked {
                Ok(i) => is_first_event_binding(returned_generic_args(*f), i as int),
                Err(error) => error == ComponentError::MissingEventBinding && has_no_event_binding(
                    returned_generic_args(*f),
                ),
            },
        },
{
    if !f.attr_is_empty {
        return Err(ComponentError::AttributeParameters);
    }
    if f.is_const {
        return Err(ComponentError::ConstFunction);
    }
    if f.is_async {
        return Err(ComponentError::AsyncFunction);
    }
    if f.is_unsafe {
        return Err(ComponentError::UnsafeFunction);
    }
    if f.has_abi {
        return Err(ComponentError::NonStandardAbi);
    }
    if f.generic_param_count != 0 {
        return Err(ComponentError::GenericParameters);
    }
    if f.has_where_clause {
        return Err(ComponentError::WhereClause);
    }
    if f.is_variadic {
        return Err(ComponentError::VariadicArguments);
    }
    if f.args.len() != 2 {
        return Err(ComponentError::WrongArgumentCount(f.args.len()));
    }
    if let FnArgKind::Receiver = f.args[0] {
        return Err(ComponentError::ReceiverArgument(0));
    }
    if let FnArgKind::Receiver = f.args[1] {
        return Err(ComponentError::ReceiverArgument(1));
    }
    match &f.output {
        ReturnTypeModel::Default => Err(ComponentError::MissingReturnType),
        ReturnTypeModel::Type(ty) => match parse_return_ty(ty) {
            Ok(Some(i)) => Ok(i),
            Ok(None) => Err(ComponentError::MissingEventBinding),
            Err(error) => Err(error),
        },
    }
}

} // verus!
