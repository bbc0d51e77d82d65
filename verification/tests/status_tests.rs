use argon::status::{
    extract_status_code_constant, status_code_constant_to_number, status_code_to_description,
    status_code_to_variant_name,
};

#[test]
fn variant_name_not_found() {
    assert_eq!(status_code_to_variant_name("NOT_FOUND"), "NotFound");
}

#[test]
fn variant_name_internal_server_error() {
    assert_eq!(
        status_code_to_variant_name("INTERNAL_SERVER_ERROR"),
        "InternalServerError"
    );
}

#[test]
fn variant_name_single_word() {
    assert_eq!(status_code_to_variant_name("OK"), "Ok");
    assert_eq!(status_code_to_variant_name("CREATED"), "Created");
}

#[test]
fn description_not_found() {
    assert_eq!(status_code_to_description("NOT_FOUND"), "Not found");
}

#[test]
fn description_internal_server_error() {
    assert_eq!(
        status_code_to_description("INTERNAL_SERVER_ERROR"),
        "Internal server error"
    );
}

#[test]
fn description_single_word() {
    assert_eq!(status_code_to_description("OK"), "Ok");
}

#[test]
fn status_numbers_whole_table() {
    assert_eq!(status_code_constant_to_number("OK"), 200);
    assert_eq!(status_code_constant_to_number("CREATED"), 201);
    assert_eq!(status_code_constant_to_number("NO_CONTENT"), 204);
    assert_eq!(status_code_constant_to_number("BAD_REQUEST"), 400);
    assert_eq!(status_code_constant_to_number("UNAUTHORIZED"), 401);
    assert_eq!(status_code_constant_to_number("FORBIDDEN"), 403);
    assert_eq!(status_code_constant_to_number("NOT_FOUND"), 404);
    assert_eq!(status_code_constant_to_number("METHOD_NOT_ALLOWED"), 405);
    assert_eq!(status_code_constant_to_number("CONFLICT"), 409);
    assert_eq!(status_code_constant_to_number("UNPROCESSABLE_ENTITY"), 422);
    assert_eq!(status_code_constant_to_number("INTERNAL_SERVER_ERROR"), 500);
    assert_eq!(status_code_constant_to_number("BAD_GATEWAY"), 502);
    assert_eq!(status_code_constant_to_number("SERVICE_UNAVAILABLE"), 503);
}

#[test]
fn unknown_mnemonic_defaults_to_200() {
    assert_eq!(status_code_constant_to_number("TEAPOT"), 200);
}

#[test]
fn status_constant_is_last_segment() {
    let path = vec![String::from("StatusCode"), String::from("OK")];
    assert_eq!(extract_status_code_constant(&path), "OK");
}

#[test]
fn status_constant_of_empty_path() {
    let path: Vec<String> = Vec::new();
    assert_eq!(extract_status_code_constant(&path), "UNKNOWN");
}
