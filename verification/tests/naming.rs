use lakka::naming::{to_pascal_case, to_snake_case};

#[test]
fn pascal_case_of_method_names() {
    assert_eq!(to_pascal_case("inc"), "Inc");
    assert_eq!(to_pascal_case("get"), "Get");
    assert_eq!(to_pascal_case("get_value"), "GetValue");
    assert_eq!(to_pascal_case("set_value"), "SetValue");
    assert_eq!(to_pascal_case("broadcast_msg"), "BroadcastMsg");
}

#[test]
fn pascal_case_underscore_edges() {
    assert_eq!(to_pascal_case(""), "");
    assert_eq!(to_pascal_case("_"), "");
    assert_eq!(to_pascal_case("_private"), "Private");
    assert_eq!(to_pascal_case("a__b"), "AB");
    assert_eq!(to_pascal_case("trailing_"), "Trailing");
    assert_eq!(to_pascal_case("x_1"), "X1");
    assert_eq!(to_pascal_case("already_Upper"), "AlreadyUpper");
    assert_eq!(to_pascal_case("über_cool"), "überCool");
}

#[test]
fn pascal_case_is_idempotent_on_examples() {
    for s in ["get_value", "_a_b_", "Inc", "x__y1_z"] {
        let once = to_pascal_case(s);
        assert_eq!(to_pascal_case(&once), once);
        assert!(!once.contains('_'));
    }
}

#[test]
fn snake_case_of_type_names() {
    assert_eq!(to_snake_case("Counter"), "counter");
    assert_eq!(to_snake_case("MyActor"), "my_actor");
    assert_eq!(to_snake_case("ConnectionConnected"), "connection_connected");
    assert_eq!(to_snake_case("HTTPServer"), "h_t_t_p_server");
    assert_eq!(to_snake_case(""), "");
    assert_eq!(to_snake_case("lower"), "lower");
}

#[test]
fn snake_case_beyond_ascii() {
    // 'Ä' is upper case but has no ASCII lower-case form; it is kept as it is.
    assert_eq!(to_snake_case("ÄB"), "Ä_b");
    assert_eq!(to_snake_case("aÄ"), "a_Ä");
}

#[test]
fn snake_case_undoes_pascal_case_of_method_names() {
    for s in ["inc", "get_value", "set_a_b", "x9_y"] {
        assert_eq!(to_snake_case(&to_pascal_case(s)), s);
    }
    assert_ne!(to_pascal_case("get_value"), to_pascal_case("getvalue"));
}

#[test]
fn snake_case_has_no_ascii_upper() {
    let out = to_snake_case("ABCDefGHi");
    assert!(!out.chars().any(|c| c.is_ascii_uppercase()));
    assert_eq!(out, "a_b_c_def_g_hi");
}

#[test]
fn pascal_case_undoes_snake_case_of_type_names() {
    for s in ["ChatUser", "ABc", "Counter", "A1b", "X"] {
        assert_eq!(to_pascal_case(&to_snake_case(s)), s);
    }
    assert_eq!(to_snake_case("ChatUser"), "chat_user");
    assert_eq!(to_snake_case("ABc"), "a_bc");
}

#[test]
fn snake_case_is_idempotent_on_ascii() {
    for s in ["ChatUser", "HTTPServer", "already_snake", "x1Y2", "__A"] {
        let once = to_snake_case(s);
        assert_eq!(to_snake_case(&once), once);
    }
    assert_eq!(to_snake_case("lower_case_9"), "lower_case_9");
}
