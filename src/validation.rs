//! Field validators for incoming requests.
use vstd::prelude::*;
use crate::text::{chars_of, opt_view, push_lit, same_text, string_from_chars};
use crate::unicode::{is_whitespace, to_uppercase, upper_of, whitespace};
use base64::Engine;

verus! {

#[verifier::external_type_specification]
#[verifier::external_body]
pub struct ExRegexError(regex::Error);

/// A failed field check: a machine code and an optional message.
#[derive(Debug, Clone, PartialEq, Eq)]
pub struct ValidationError {
    pub code: String,
    pub message: Option<String>,
}

pub struct ValidationErrorView {
    pub code: Seq<char>,
    pub message: Option<Seq<char>>,
}

impl View for ValidationError {
    type V = ValidationErrorView;

    open spec fn view(&self) -> ValidationErrorView {
        ValidationErrorView { code: self.code@, message: opt_view(self.message) }
    }
}

pub open spec fn check_view(r: Result<(), ValidationError>) -> Result<(), ValidationErrorView> {
    match r {
        Ok(()) => Ok(()),
        Err(e) => Err(e@),
    }
}

pub open spec fn error_view(code: Seq<char>, message: Option<Seq<char>>) -> Result<(), ValidationErrorView> {
    Err(ValidationErrorView { code, message })
}

pub const NAME_PATTERN: &'static str = "^[a-zA-Z ]+$";

pub const PASSWORD_PATTERN: &'static str = "^(?=.*[A-Za-z])(?=.*\\d)[A-Za-z\\d]{8,}$";

pub const PHONE_PATTERN: &'static str = "^\\d{10,15}$";

pub const CARD_NUMBER_PATTERN: &'static str = "^[0-9]*$";

/// Whether the regex crate's `Regex` built from `pattern` matches `text`;
/// `None` when the pattern does not compile.
pub uninterp spec fn regex_verdict(pattern: Seq<char>, text: Seq<char>) -> Option<bool>;

/// Relies on regex's `Regex::new` (an error for a pattern it does not
/// support) and `Regex::is_match`.
#[verifier::external_body]
fn regex_is_match(pattern: &str, text: &str) -> (r: Result<bool, regex::Error>)
    ensures
        r matches Ok(b) ==> regex_verdict(pattern@, text@) == Some(b),
        r is Err ==> regex_verdict(pattern@, text@) is None,
{
    Ok(regex::Regex::new(pattern)?.is_match(text))
}

fn field_error(code: &str, message: Option<&str>) -> (r: ValidationError)
    ensures
        r@.code == code@,
        r@.message == match message {
            Some(m) => Some(m@),
            None => None::<Seq<char>>,
        },
{
    ValidationError {
        code: code.to_string(),
        message: match message {
            Some(m) => Some(m.to_string()),
            None => None,
        },
    }
}

/// Fails with `required` when `value` is empty or only whitespace.
pub fn required(value: &str) -> (r: Result<(), ValidationError>)
    ensures
        check_view(r) == if (forall|i: int| 0 <= i < value@.len() ==> whitespace(#[trigger] value@[i])) {
            error_view("required"@, Some("This field is required"@))
        } else {
            Ok(())
        },
{
    let cs = chars_of(value);
    let mut i: usize = 0;
    while i < cs.len()
        invariant
            cs@ == value@,
            i <= cs.len(),
            forall|j: int| 0 <= j < i ==> whitespace(#[trigger] value@[j]),
        decreases cs.len() - i,
    {
        if !is_whitespace(cs[i]) {
            return Ok(());
        }
        i += 1;
    }
    Err(field_error("required", Some("This field is required")))
}

/// Fails with `required` when `value` is 0.
pub fn required_int(value: i32) -> (r: Result<(), ValidationError>)
    ensures
        check_view(r) == if value == 0 {
            error_view("required"@, Some("This field hand not null or 0"@))
        } else {
            Ok(())
        },
{
    if value == 0 {
        return Err(field_error("required", Some("This field hand not null or 0")));
    }
    Ok(())
}

/// The outcome of checking `value` against `pattern`: `invalid_regex` when
/// the pattern does not compile, `code` with `message` when it does not match.
pub open spec fn pattern_check(
    pattern: Seq<char>,
    value: Seq<char>,
    code: Seq<char>,
    message: Seq<char>,
) -> Result<(), ValidationErrorView> {
    match regex_verdict(pattern, value) {
        None => error_view("invalid_regex"@, None),
        Some(true) => Ok(()),
        Some(false) => error_view(code, Some(message)),
    }
}

fn check_pattern(pattern: &str, value: &str, code: &str, message: &str) -> (r: Result<
    (),
    ValidationError,
>)
    ensures
        check_view(r) == pattern_check(pattern@, value@, code@, message@),
{
    match regex_is_match(pattern, value) {
        Err(_) => Err(field_error("invalid_regex", None)),
        Ok(true) => Ok(()),
        Ok(false) => Err(field_error(code, Some(message))),
    }
}

/// Letters and spaces only.
pub fn valid_name(value: &str) -> (r: Result<(), ValidationError>)
    ensures
        check_view(r) == pattern_check(
            NAME_PATTERN@,
            value@,
            "invalid_email"@,
            "Format name value has not number"@,
        ),
{
    check_pattern(NAME_PATTERN, value, "invalid_email", "Format name value has not number")
}

/// At least eight letters or digits, with at least one of each. The pattern
/// uses look-ahead, which the regex crate does not compile, so this check
/// always reports `invalid_regex`.
pub fn valid_password(value: &str) -> (r: Result<(), ValidationError>)
    ensures
        check_view(r) == pattern_check(
            PASSWORD_PATTERN@,
            value@,
            "invalid_password"@,
            "Required character number and text"@,
        ),
{
    check_pattern(PASSWORD_PATTERN, value, "invalid_password", "Required character number and text")
}

/// Ten to fifteen digits.
pub fn valid_phone_number(value: &str) -> (r: Result<(), ValidationError>)
    ensures
        check_view(r) == pattern_check(
            PHONE_PATTERN@,
            value@,
            "invalid_phone"@,
            "Valus has number from 10-15 length"@,
        ),
{
    check_pattern(PHONE_PATTERN, value, "invalid_phone", "Valus has number from 10-15 length")
}

/// Digits only (possibly none).
pub fn valid_number_card(value: &str) -> (r: Result<(), ValidationError>)
    ensures
        check_view(r) == pattern_check(
            CARD_NUMBER_PATTERN@,
            value@,
            "invalid_number_card"@,
            "Value has number format"@,
        ),
{
    check_pattern(CARD_NUMBER_PATTERN, value, "invalid_number_card", "Value has number format")
}

/// `s` with its first character upper-cased.
pub fn capitalize(s: &str) -> (r: String)
    ensures
        r@ == if s@.len() == 0 {
            Seq::<char>::empty()
        } else {
            upper_of(s@[0]) + s@.drop_first()
        },
{
    let cs = chars_of(s);
    if cs.len() == 0 {
        return String::new();
    }
    let first = to_uppercase(cs[0]);
    let mut out = chars_of(first.as_str());
    let mut i: usize = 1;
    while i < cs.len()
        invariant
            cs@ == s@,
            1 <= i <= cs.len(),
            out@ == upper_of(s@[0]) + s@.subrange(1, i as int),
        decreases cs.len() - i,
    {
        out.push(cs[i]);
        i += 1;
        assert(out@ =~= upper_of(s@[0]) + s@.subrange(1, i as int));
    }
    assert(s@.subrange(1, i as int) =~= s@.drop_first());
    string_from_chars(&out)
}

/// The message shown for a field's first error: `<Field> is required` for a
/// `required` error, else the error's own message, else `Invalid value`.
pub open spec fn field_message(field: Seq<char>, e: ValidationErrorView) -> Seq<char> {
    if e.code == "required"@ {
        (if field.len() == 0 {
            Seq::<char>::empty()
        } else {
            upper_of(field[0]) + field.drop_first()
        }) + " is required"@
    } else {
        match e.message {
            Some(m) => m,
            None => "Invalid value"@,
        }
    }
}

pub fn format_field_error(field: &str, e: &ValidationError) -> (r: String)
    ensures
        r@ == field_message(field@, e@),
{
    if same_text(e.code.as_str(), "required") {
        let mut out = chars_of(capitalize(field).as_str());
        push_lit(&mut out, " is required");
        string_from_chars(&out)
    } else {
        match &e.message {
            Some(m) => m.clone(),
            None => "Invalid value".to_string(),
        }
    }
}

/// One `(field, message)` pair per field that has errors, from its first
/// error, in the fields' order.
pub open spec fn formatted(errors: Seq<(String, Vec<ValidationError>)>) -> Seq<(Seq<char>, Seq<char>)>
    decreases errors.len(),
{
    if errors.len() == 0 {
        Seq::empty()
    } else {
        let p = formatted(errors.drop_last());
        let f = errors.last().0;
        let es = errors.last().1;
        if es@.len() > 0 {
            p.push((f@, field_message(f@, es@[0]@)))
        } else {
            p
        }
    }
}

pub open spec fn pairs_view(r: Seq<(String, String)>) -> Seq<(Seq<char>, Seq<char>)> {
    r.map_values(|p: (String, String)| (p.0@, p.1@))
}

/// The message of each field's first error, for the fields that have errors.
pub fn format_validation_errors(errors: &Vec<(String, Vec<ValidationError>)>) -> (r: Vec<
    (String, String),
>)
    ensures
        pairs_view(r@) == formatted(errors@),
{
    let mut out: Vec<(String, String)> = Vec::new();
    let mut i: usize = 0;
    while i < errors.len()
        invariant
            i <= errors@.len(),
            pairs_view(out@) == formatted(errors@.take(i as int)),
        decreases errors@.len() - i,
    {
        let ghost before = out@;
        let (field, field_errors) = &errors[i];
        if field_errors.len() > 0 {
            let msg = format_field_error(field.as_str(), &field_errors[0]);
            out.push((field.clone(), msg));
            assert(pairs_view(out@) =~= pairs_view(before).push((field@, msg@)));
        }
        assert(errors@.take(i + 1).drop_last() =~= errors@.take(i as int));
        i += 1;
    }
    assert(errors@.take(i as int) =~= errors@);
    out
}

/// What kind of image some bytes start like.
#[derive(Debug, Clone, Copy, PartialEq, Eq, Structural)]
pub enum ImageKind {
    Png,
    Jpeg,
    WebP,
    Other,
}

/// The image format that `image::guess_format` finds from the leading bytes
/// of `data`; `None` when it recognises none.
pub uninterp spec fn image_kind_of(data: Seq<u8>) -> Option<ImageKind>;

/// Standard-alphabet base64 `text` decoded; `None` when it is not valid.
pub uninterp spec fn base64_std_decoded(text: Seq<char>) -> Option<Seq<u8>>;

/// Relies on image's `guess_format`, which reads magic bytes only.
#[verifier::external_body]
fn guess_image_kind(data: &[u8]) -> (r: Option<ImageKind>)
    ensures
        r == image_kind_of(data@),
{
    match image::guess_format(data) {
        Ok(image::ImageFormat::Png) => Some(ImageKind::Png),
        Ok(image::ImageFormat::Jpeg) => Some(ImageKind::Jpeg),
        Ok(image::ImageFormat::WebP) => Some(ImageKind::WebP),
        Ok(_) => Some(ImageKind::Other),
        Err(_) => None,
    }
}

/// Relies on base64's `STANDARD` engine `decode`.
#[verifier::external_body]
fn base64_std_decode(text: &str) -> (r: Result<Vec<u8>, base64::DecodeError>)
    ensures
        r matches Ok(v) ==> base64_std_decoded(text@) == Some(v@),
        r is Err ==> base64_std_decoded(text@) is None,
{
    base64::engine::general_purpose::STANDARD.decode(text)
}

/// The part of `s` after its last `,` (all of `s` when it has none).
pub open spec fn after_last_comma(s: Seq<char>) -> Seq<char>
    decreases s.len(),
{
    if s.len() == 0 {
        s
    } else if s.last() == ',' {
        Seq::empty()
    } else {
        after_last_comma(s.drop_last()).push(s.last())
    }
}

/// `s` without leading and trailing whitespace.
pub open spec fn trimmed(s: Seq<char>) -> Seq<char>
    decreases s.len(),
{
    if s.len() == 0 {
        s
    } else if whitespace(s[0]) {
        trimmed(s.drop_first())
    } else if whitespace(s.last()) {
        trimmed(s.drop_last())
    } else {
        s
    }
}

/// Largest decoded image accepted: 5 MiB.
pub const MAX_IMAGE_BYTES: usize = 5242880;

/// The verdict on a base64 image field, given the decoded payload text.
pub open spec fn image_check(payload: Seq<char>) -> Result<(), ValidationErrorView> {
    match base64_std_decoded(payload) {
        None => error_view("invalid_base64"@, Some("Base64 tidak valid"@)),
        Some(bytes) => if bytes.len() > MAX_IMAGE_BYTES {
            error_view("file_too_large"@, Some("Ukuran file maksimal 5MB"@))
        } else {
            match image_kind_of(bytes) {
                None => error_view("invalid_image"@, Some("File bukan gambar valid"@)),
                Some(ImageKind::Other) => error_view(
                    "unsupported_format"@,
                    Some("Format gambar harus JPEG, PNG, atau WebP"@),
                ),
                Some(_) => Ok(()),
            }
        },
    }
}

fn last_comma_part(cs: &Vec<char>) -> (r: Vec<char>)
    ensures
        r@ == after_last_comma(cs@),
{
    let mut start: usize = cs.len();
    assert(cs@.take(start as int) =~= cs@);
    assert(cs@ + cs@.subrange(start as int, cs.len() as int) =~= cs@);
    while start > 0 && cs[start - 1] != ','
        invariant
            start <= cs.len(),
            after_last_comma(cs@) == after_last_comma(cs@.take(start as int)) + cs@.subrange(
                start as int,
                cs.len() as int,
            ),
        decreases start,
    {
        let ghost p = cs@.take(start as int);
        assert(p.drop_last() =~= cs@.take(start - 1));
        assert(cs@.subrange(start - 1, cs.len() as int) =~= seq![p.last()] + cs@.subrange(
            start as int,
            cs.len() as int,
        ));
        start -= 1;
    }
    if start > 0 {
        assert(cs@.take(start as int).last() == ',');
    } else {
        assert(cs@.take(0) =~= Seq::<char>::empty());
    }
    let mut out: Vec<char> = Vec::new();
    let mut i: usize = start;
    while i < cs.len()
        invariant
            start <= i <= cs.len(),
            out@ == cs@.subrange(start as int, i as int),
        decreases cs.len() - i,
    {
        out.push(cs[i]);
        i += 1;
        assert(out@ =~= cs@.subrange(start as int, i as int));
    }
    assert(after_last_comma(cs@.take(start as int)) + out@ =~= out@);
    out
}

fn trim_chars(cs: &Vec<char>) -> (r: Vec<char>)
    ensures
        r@ == trimmed(cs@),
{
    let mut lo: usize = 0;
    let mut hi: usize = cs.len();
    assert(cs@.subrange(0, hi as int) =~= cs@);
    while lo < hi && is_whitespace(cs[lo])
        invariant
            lo <= hi == cs.len(),
            trimmed(cs@) == trimmed(cs@.subrange(lo as int, hi as int)),
        decreases hi - lo,
    {
        let ghost w = cs@.subrange(lo as int, hi as int);
        assert(w.drop_first() =~= cs@.subrange(lo + 1, hi as int));
        lo += 1;
    }
    while lo < hi && is_whitespace(cs[hi - 1])
        invariant
            lo <= hi <= cs.len(),
            lo < hi ==> !whitespace(cs@[lo as int]),
            trimmed(cs@) == trimmed(cs@.subrange(lo as int, hi as int)),
        decreases hi - lo,
    {
        let ghost w = cs@.subrange(lo as int, hi as int);
        assert(w.drop_last() =~= cs@.subrange(lo as int, hi - 1));
        assert(w[0] == cs@[lo as int]);
        hi -= 1;
    }
    let mut out: Vec<char> = Vec::new();
    let mut i: usize = lo;
    while i < hi
        invariant
            lo <= i <= hi <= cs.len(),
            out@ == cs@.subrange(lo as int, i as int),
        decreases hi - i,
    {
        out.push(cs[i]);
        i += 1;
        assert(out@ =~= cs@.subrange(lo as int, i as int));
    }
    proof {
        let w = cs@.subrange(lo as int, hi as int);
        if w.len() > 0 {
            assert(w[0] == cs@[lo as int]);
            assert(w.last() == cs@[hi - 1]);
        }
    }
    out
}

/// Checks a base64 image field (an optional `data:...;base64,` prefix is
/// ignored): it must decode, be at most 5 MiB, and be a PNG, JPEG or WebP.
pub fn validate_base64_image(value: &str) -> (r: Result<(), ValidationError>)
    ensures
        check_view(r) == image_check(trimmed(after_last_comma(value@))),
{
    let cs = chars_of(value);
    let part = trim_chars(&last_comma_part(&cs));
    let payload = string_from_chars(&part);
    let decoded = match base64_std_decode(payload.as_str()) {
        Ok(d) => d,
        Err(_) => return Err(field_error("invalid_base64", Some("Base64 tidak valid"))),
    };
    if decoded.len() > MAX_IMAGE_BYTES {
        return Err(field_error("file_too_large", Some("Ukuran file maksimal 5MB")));
    }
    match guess_image_kind(decoded.as_slice()) {
        None => Err(field_error("invalid_image", Some("File bukan gambar valid"))),
        Some(ImageKind::Other) => Err(
            field_error("unsupported_format", Some("Format gambar harus JPEG, PNG, atau WebP")),
        ),
        Some(_) => Ok(()),
    }
}

} // verus!
