use snakesystem_api::generic::GenericService;
use snakesystem_api::model::ActionResult;
use snakesystem_api::validation::{
    capitalize, format_validation_errors, required, required_int, valid_name, valid_number_card,
    valid_password, valid_phone_number, validate_base64_image, ValidationError,
};

fn err(code: &str, message: Option<&str>) -> ValidationError {
    ValidationError { code: code.to_string(), message: message.map(|m| m.to_string()) }
}

#[test]
fn slugify_examples() {
    assert_eq!(GenericService::slugify("Hello World"), "hello-world");
    assert_eq!(GenericService::slugify("  Rust -- Verus  "), "rust-verus");
    assert_eq!(GenericService::slugify("a!b"), "a\0b");
    assert_eq!(GenericService::slugify("ÄBC Déjà"), "äbc-déjà");
    assert_eq!(GenericService::slugify("---"), "");
    assert_eq!(GenericService::slugify(""), "");
}

#[test]
fn sanitize_filename_examples() {
    assert_eq!(GenericService::sanitize_filename("my file (1).PNG"), "my_file__1_.PNG");
    assert_eq!(GenericService::sanitize_filename("a-b_c.d"), "a-b_c.d");
    assert_eq!(GenericService::sanitize_filename("é/x"), "__x");
}

#[test]
fn random_string_shape() {
    for n in [0usize, 1, 20, 70] {
        let s = GenericService::random_string(n);
        assert_eq!(s.chars().count(), n);
        assert!(s.chars().all(|c| c.is_ascii_uppercase() || c.is_ascii_digit()));
    }
}

#[test]
fn required_checks() {
    assert_eq!(required("x"), Ok(()));
    assert_eq!(required(" \t x "), Ok(()));
    assert_eq!(required(""), Err(err("required", Some("This field is required"))));
    assert_eq!(required(" \n\t"), Err(err("required", Some("This field is required"))));
}

#[test]
fn required_int_checks() {
    assert_eq!(required_int(5), Ok(()));
    assert_eq!(required_int(-1), Ok(()));
    assert_eq!(required_int(0), Err(err("required", Some("This field hand not null or 0"))));
}

#[test]
fn regex_validators() {
    assert_eq!(valid_name("Ada Lovelace"), Ok(()));
    assert_eq!(valid_name("Ada1"), Err(err("invalid_email", Some("Format name value has not number"))));
    assert_eq!(valid_phone_number("0812345678"), Ok(()));
    assert_eq!(
        valid_phone_number("12345"),
        Err(err("invalid_phone", Some("Valus has number from 10-15 length")))
    );
    assert_eq!(valid_number_card(""), Ok(()));
    assert_eq!(valid_number_card("12a"), Err(err("invalid_number_card", Some("Value has number format"))));
    assert_eq!(valid_password("abcdefg1"), Err(err("invalid_regex", None)));
}

#[test]
fn capitalize_examples() {
    assert_eq!(capitalize("email"), "Email");
    assert_eq!(capitalize(""), "");
    assert_eq!(capitalize("ßtraße"), "SStraße");
}

#[test]
fn format_validation_errors_examples() {
    let errors = vec![
        ("email".to_string(), vec![err("required", None)]),
        ("password".to_string(), vec![]),
        ("phone".to_string(), vec![err("invalid_phone", Some("bad phone")), err("required", None)]),
        ("name".to_string(), vec![err("other", None)]),
    ];
    assert_eq!(
        format_validation_errors(&errors),
        vec![
            ("email".to_string(), "Email is required".to_string()),
            ("phone".to_string(), "bad phone".to_string()),
            ("name".to_string(), "Invalid value".to_string()),
        ]
    );
}

#[test]
fn action_result_default_is_empty_failure() {
    let r: ActionResult<String, String> = ActionResult::default();
    assert!(!r.result);
    assert!(r.message.is_empty());
    assert!(r.data.is_none());
    assert!(r.error.is_none());
}

#[test]
fn base64_image_validation() {
    assert_eq!(validate_base64_image("data:image/png;base64, iVBORw0KGgo= "), Ok(()));
    assert_eq!(validate_base64_image("/9j/4AAQ"), Ok(()));
    assert_eq!(
        validate_base64_image("data:image/gif;base64,R0lGODlh"),
        Err(err("unsupported_format", Some("Format gambar harus JPEG, PNG, atau WebP")))
    );
    assert_eq!(validate_base64_image("aGVsbG8="), Err(err("invalid_image", Some("File bukan gambar valid"))));
    assert_eq!(validate_base64_image("a,!!!"), Err(err("invalid_base64", Some("Base64 tidak valid"))));
}

#[test]
fn localhost_origin_detection() {
    assert!(GenericService::is_localhost_origin(Some("http://localhost:3000")));
    assert!(GenericService::is_localhost_origin(Some("http://localhost")));
    assert!(!GenericService::is_localhost_origin(Some("https://localhost")));
    assert!(!GenericService::is_localhost_origin(Some("http://local")));
    assert!(!GenericService::is_localhost_origin(None));
}

#[test]
fn caller_address_and_device_fallbacks() {
    assert_eq!(GenericService::get_ip_address(Some("1.2.3.4"), Some("5.6.7.8")), "1.2.3.4");
    assert_eq!(GenericService::get_ip_address(None, Some("5.6.7.8")), "5.6.7.8");
    assert_eq!(GenericService::get_ip_address(None, None), "Unknown IP");
    assert_eq!(GenericService::get_device_name(Some("front.example")), "front.example");
    assert_eq!(GenericService::get_device_name(None), "Unknown Device");
}

#[test]
fn slug_from_lowercase_keeps_case() {
    assert_eq!(GenericService::slug_from_lowercase("Hello  World"), "Hello-World");
    assert_eq!(GenericService::slug_from_lowercase("-a\u{3000}b-"), "a-b");
    assert_eq!(GenericService::slug_from_lowercase("a?b"), "a\0b");
}

#[test]
fn required_uses_unicode_white_space() {
    assert!(required("\u{a0}\u{2003}\u{3000}").is_err());
    assert!(required("\u{200b}").is_ok());
}
