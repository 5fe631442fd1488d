use cache_manager::validation::errors::ValidatorError;
use cache_manager::validation::processor::{create_processor_email_max_len_20, DataProcessor};
use cache_manager::validation::rules::{SanitizerRule, ValidatorRule};
use cache_manager::validation::sanitizer::{ToLowerCaseSanitizer, TrimWhitespaceSanitizer};
use cache_manager::validation::validator::{
    email_verdict, EmailFormatValidator, MinLengthValidator, PositiveNumberValidator,
};

#[test]
fn min_validator_test_within_range() {
    let min_validator = MinLengthValidator::new(10);
    let test_str = "test";
    assert!(min_validator.validate(test_str).is_ok());
    let test_string = "test".to_string();
    assert!(min_validator.validate(&test_string).is_ok());
}

#[test]
fn min_validator_test_empty_string() {
    let min_validator = MinLengthValidator::new(10);
    let test_str = "";
    let result = min_validator.validate(test_str);
    assert!(result.is_err());
    let test_string = "".to_string();
    let result = min_validator.validate(&test_string);
    assert!(result.is_err());
}

#[test]
fn min_validator_test_too_big() {
    let min_validator = MinLengthValidator::new(10);
    let test_str = "a".repeat(11);
    let result = min_validator.validate(test_str.as_str());
    assert!(result.is_err());
    let test_string = "a".repeat(11).to_string();
    let result = min_validator.validate(&test_string);
    assert!(result.is_err());
}

#[test]
fn min_validator_messages() {
    let min_validator = MinLengthValidator::new(3);
    match min_validator.validate("") {
        Err(ValidatorError::ValidationError(message)) => {
            assert_eq!(message, "Data should be non empty")
        }
        other => panic!("unexpected verdict {other:?}"),
    }
    match min_validator.validate("abcd") {
        Err(ValidatorError::ValidationError(message)) => {
            assert_eq!(message, "Data should not exceed 3 but was 4")
        }
        other => panic!("unexpected verdict {other:?}"),
    }
    assert!(min_validator.validate("abc").is_ok());
}

#[test]
fn min_validator_counts_bytes() {
    let min_validator = MinLengthValidator::new(3);
    assert!(min_validator.validate("éé").is_err());
    assert!(min_validator.validate("é").is_ok());
}

#[test]
fn test_to_lower_case() {
    let san = ToLowerCaseSanitizer::new();
    let mut s = "HELLO!".to_string();
    let result = san.sanitize(&mut s);
    assert_eq!(result, s.to_lowercase());
    assert_eq!(result, "hello!");
    assert_eq!(s, "HELLO!");
}

#[test]
fn test_to_lower_case_empty_string() {
    let san = ToLowerCaseSanitizer::new();
    let mut s = "".to_string();
    let result = san.sanitize(&mut s);
    assert_eq!(result, s.to_lowercase());
}

#[test]
fn test_string_with_spaces() {
    let mut s = " Some String ".to_string();
    let san = TrimWhitespaceSanitizer::new();
    let result = san.sanitize(&mut s);
    assert_eq!(result, "Some String");
}

#[test]
fn test_string_without_spaces() {
    let mut s = "Some String".to_string();
    let san = TrimWhitespaceSanitizer::new();
    let result = san.sanitize(&mut s);
    assert_eq!(result, "Some String");
}

#[test]
fn white_space_sanitizer_test_empty_string() {
    let mut s = "".to_string();
    let san = TrimWhitespaceSanitizer::new();
    let result = san.sanitize(&mut s);
    assert_eq!(result, "");
}

#[test]
fn test_valid_email() {
    let valid_email = "example@some.com".to_string();
    let validator = EmailFormatValidator::new();
    let result = validator.validate(&valid_email);
    assert!(result.is_ok());
}

#[test]
fn test_invalid_email_not_fully_classified() {
    let invalid_email = "user@".to_string();
    let validator = EmailFormatValidator::new();
    let result = validator.validate(&invalid_email);
    assert!(result.is_err());
}

#[test]
fn test_invalid_email_illegal_format() {
    let invalid_email = "user@exampple@ex.com".to_string();
    let validator = EmailFormatValidator::new();
    let result = validator.validate(&invalid_email);
    assert!(result.is_err());
}

#[test]
fn test_invalid_email_empty_email() {
    let invalid_email = "".to_string();
    let validator = EmailFormatValidator::new();
    let result = validator.validate(&invalid_email);
    assert!(result.is_err());
}

#[test]
fn email_rejection_is_a_validation_error() {
    let validator = EmailFormatValidator::new();
    match validator.validate(&"nobody".to_string()) {
        Err(ValidatorError::ValidationError(message)) => {
            assert_eq!(message, "{data} is not a valid email")
        }
        other => panic!("unexpected verdict {other:?}"),
    }
}

#[test]
fn email_verdict_follows_the_search() {
    assert!(email_verdict(Ok(true)).is_ok());
    assert!(matches!(
        email_verdict(Ok(false)),
        Err(ValidatorError::ValidationError(_))
    ));
    let broken = regex::Regex::new("(").unwrap_err();
    assert!(matches!(
        email_verdict(Err(broken)),
        Err(ValidatorError::RegexValidationError(_))
    ));
}

#[test]
fn regex_error_converts_into_validator_error() {
    let broken = regex::Regex::new("[").unwrap_err();
    let text = broken.to_string();
    match ValidatorError::from(broken) {
        ValidatorError::RegexValidationError(inner) => assert_eq!(inner.to_string(), text),
        other => panic!("unexpected error {other:?}"),
    }
}

#[test]
fn test_positive_number() {
    let validator = PositiveNumberValidator::new();
    let result = validator.validate(&Box::new(1));
    assert!(result.is_ok());
}

#[test]
fn test_negative_number() {
    let validator = PositiveNumberValidator::new();
    let result = validator.validate(&Box::new(-11));
    assert!(result.is_err());
}

#[test]
fn test_zero() {
    let validator = PositiveNumberValidator::new();
    let result = validator.validate(&Box::new(0));
    assert!(result.is_err());
}

#[test]
fn test_process_successful() {
    let processor = create_processor_email_max_len_20();
    let mut test_string = "example@example.com".to_string();

    let result = processor.process(&mut test_string);
    println!("{result:?}");
    assert!(result.is_ok());
}

#[test]
fn test_process_fail_too_long_email() {
    let processor = create_processor_email_max_len_20();
    let mut test_string = "exampasdsadasdasdle@example.com".to_string();

    let result = processor.process(&mut test_string);
    println!("{result:?}");
    assert!(result.is_err());
}

#[test]
fn test_process_fail_empty_string() {
    let processor = create_processor_email_max_len_20();
    let mut test_string = "".to_string();

    let result = processor.process(&mut test_string);
    println!("{result:?}");
    assert!(result.is_err());
}

#[test]
fn test_process_pass_too_many_spaces_bu_ok_email() {
    let processor = create_processor_email_max_len_20();
    let mut test_string =
        "                                     asdle@example.com                          "
            .to_string();

    let result = processor.process(&mut test_string);
    println!("{result:?}");
    assert!(result.is_ok());
}

#[test]
fn test_process_fail_not_an_email() {
    let processor = create_processor_email_max_len_20();
    let mut test_string =
        "                                     asdlexample.com                          "
            .to_string();

    let result = processor.process(&mut test_string);
    println!("{result:?}");
    assert!(result.is_err());
}

#[test]
fn process_cleans_and_takes_the_value() {
    let processor = create_processor_email_max_len_20();
    let mut text = "  Someone@Example.COM ".to_string();
    let result = processor.process(&mut text).unwrap();
    assert_eq!(result.value(), "someone@example.com");
    assert_eq!(text, "");
}

#[test]
fn process_wraps_the_first_failure() {
    let processor: DataProcessor<i32> =
        DataProcessor::new(vec![Box::new(PositiveNumberValidator::new())], vec![]);
    let mut number = -4;
    match processor.process(&mut number) {
        Err(ValidatorError::ValidationError(message)) => assert_eq!(
            message,
            "Could not validate data -4, cause: ValidationError(\"{data} is negative\")"
        ),
        other => panic!("unexpected outcome {other:?}"),
    }
    assert_eq!(number, 0);
    let mut number = 9;
    assert_eq!(processor.process(&mut number).unwrap().value(), &9);
}
