use panoramix::component_signature::{
    check_component_fn, parse_return_ty, BoundModel, ComponentError, ComponentFnModel, FnArgKind,
    GenericArgModel, PathArgsModel, ReturnTypeModel, TypeModel,
};

fn binding(name: &str) -> GenericArgModel {
    GenericArgModel::Binding(String::from(name))
}

fn impl_element(args: Vec<GenericArgModel>) -> TypeModel {
    TypeModel::ImplTrait(vec![BoundModel::Trait(PathArgsModel::AngleBracketed(args))])
}

/// `fn MyComponent(ctx: &CompCtx, props: Props) -> impl Element<Event = MyEvent>`
fn good_component() -> ComponentFnModel {
    ComponentFnModel {
        attr_is_empty: true,
        is_const: false,
        is_async: false,
        is_unsafe: false,
        has_abi: false,
        generic_param_count: 0,
        has_where_clause: false,
        is_variadic: false,
        args: vec![FnArgKind::Typed, FnArgKind::Typed],
        output: ReturnTypeModel::Type(impl_element(vec![binding("Event")])),
    }
}

#[test]
fn component_of_documented_shape_is_accepted() {
    assert_eq!(check_component_fn(&good_component()), Ok(0));
}

#[test]
fn event_binding_is_found_among_other_arguments() {
    let f = ComponentFnModel {
        output: ReturnTypeModel::Type(impl_element(vec![
            GenericArgModel::Other,
            binding("State"),
            binding("Event"),
            binding("Event"),
        ])),
        ..good_component()
    };
    assert_eq!(check_component_fn(&f), Ok(2));
}

#[test]
fn attribute_parameters_are_refused() {
    let f = ComponentFnModel {
        attr_is_empty: false,
        ..good_component()
    };
    assert_eq!(check_component_fn(&f), Err(ComponentError::AttributeParameters));
}

#[test]
fn function_qualifiers_are_refused() {
    let const_fn = ComponentFnModel {
        is_const: true,
        ..good_component()
    };
    assert_eq!(check_component_fn(&const_fn), Err(ComponentError::ConstFunction));
    let async_fn = ComponentFnModel {
        is_async: true,
        ..good_component()
    };
    assert_eq!(check_component_fn(&async_fn), Err(ComponentError::AsyncFunction));
    let unsafe_fn = ComponentFnModel {
        is_unsafe: true,
        ..good_component()
    };
    assert_eq!(check_component_fn(&unsafe_fn), Err(ComponentError::UnsafeFunction));
    let abi_fn = ComponentFnModel {
        has_abi: true,
        ..good_component()
    };
    assert_eq!(check_component_fn(&abi_fn), Err(ComponentError::NonStandardAbi));
}

#[test]
fn generics_and_variadic_arguments_are_refused() {
    let generic_fn = ComponentFnModel {
        generic_param_count: 1,
        ..good_component()
    };
    assert_eq!(check_component_fn(&generic_fn), Err(ComponentError::GenericParameters));
    let where_fn = ComponentFnModel {
        has_where_clause: true,
        ..good_component()
    };
    assert_eq!(check_component_fn(&where_fn), Err(ComponentError::WhereClause));
    let variadic_fn = ComponentFnModel {
        is_variadic: true,
        ..good_component()
    };
    assert_eq!(check_component_fn(&variadic_fn), Err(ComponentError::VariadicArguments));
}

#[test]
fn argument_count_must_be_two() {
    let one_arg = ComponentFnModel {
        args: vec![FnArgKind::Typed],
        ..good_component()
    };
    assert_eq!(check_component_fn(&one_arg), Err(ComponentError::WrongArgumentCount(1)));
    let three_args = ComponentFnModel {
        args: vec![FnArgKind::Typed, FnArgKind::Typed, FnArgKind::Typed],
        ..good_component()
    };
    assert_eq!(check_component_fn(&three_args), Err(ComponentError::WrongArgumentCount(3)));
}

#[test]
fn self_arguments_are_refused() {
    let first = ComponentFnModel {
        args: vec![FnArgKind::Receiver, FnArgKind::Typed],
        ..good_component()
    };
    assert_eq!(check_component_fn(&first), Err(ComponentError::ReceiverArgument(0)));
    let last = ComponentFnModel {
        args: vec![FnArgKind::Typed, FnArgKind::Receiver],
        ..good_component()
    };
    assert_eq!(check_component_fn(&last), Err(ComponentError::ReceiverArgument(1)));
}

#[test]
fn return_type_is_required() {
    let f = ComponentFnModel {
        output: ReturnTypeModel::Default,
        ..good_component()
    };
    assert_eq!(check_component_fn(&f), Err(ComponentError::MissingReturnType));
}

#[test]
fn event_binding_is_required() {
    let f = ComponentFnModel {
        output: ReturnTypeModel::Type(impl_element(vec![binding("State")])),
        ..good_component()
    };
    assert_eq!(check_component_fn(&f), Err(ComponentError::MissingEventBinding));
    let no_args = ComponentFnModel {
        output: ReturnTypeModel::Type(TypeModel::ImplTrait(vec![BoundModel::Trait(PathArgsModel::NoArgs)])),
        ..good_component()
    };
    assert_eq!(check_component_fn(&no_args), Err(ComponentError::MissingEventBinding));
}

#[test]
fn first_broken_rule_gives_the_error() {
    let f = ComponentFnModel {
        is_async: true,
        is_unsafe: true,
        args: vec![FnArgKind::Receiver],
        output: ReturnTypeModel::Default,
        ..good_component()
    };
    assert_eq!(check_component_fn(&f), Err(ComponentError::AsyncFunction));
    let g = ComponentFnModel {
        args: vec![FnArgKind::Receiver, FnArgKind::Receiver],
        output: ReturnTypeModel::Default,
        ..good_component()
    };
    assert_eq!(check_component_fn(&g), Err(ComponentError::ReceiverArgument(0)));
}

#[test]
fn return_type_must_be_impl_of_a_single_trait() {
    assert_eq!(parse_return_ty(&TypeModel::Other), Err(ComponentError::ReturnTypeNotImplTrait));
    let two_bounds = TypeModel::ImplTrait(vec![
        BoundModel::Trait(PathArgsModel::AngleBracketed(vec![binding("Event")])),
        BoundModel::Trait(PathArgsModel::NoArgs),
    ]);
    assert_eq!(parse_return_ty(&two_bounds), Err(ComponentError::ReturnTypeOtherBounds));
    let lifetime = TypeModel::ImplTrait(vec![BoundModel::Other]);
    assert_eq!(parse_return_ty(&lifetime), Err(ComponentError::ReturnTypeOtherBounds));
}

#[test]
fn return_type_without_event_binding_gives_none() {
    let no_args = TypeModel::ImplTrait(vec![BoundModel::Trait(PathArgsModel::NoArgs)]);
    assert_eq!(parse_return_ty(&no_args), Ok(None));
    let parenthesized = TypeModel::ImplTrait(vec![BoundModel::Trait(PathArgsModel::Parenthesized)]);
    assert_eq!(parse_return_ty(&parenthesized), Ok(None));
    assert_eq!(parse_return_ty(&impl_element(vec![])), Ok(None));
    assert_eq!(parse_return_ty(&impl_element(vec![binding("event")])), Ok(None));
    assert_eq!(parse_return_ty(&impl_element(vec![binding("Event")])), Ok(Some(0)));
}
