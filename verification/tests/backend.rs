use edamame_posture::backend::{policy_check_step, report_request_step, RetryStep};
use edamame_posture::errors::{
    ERROR_CODE_MISMATCH, ERROR_CODE_PARAM, ERROR_CODE_SERVER_ERROR, EXIT_CODE_SUCCESS,
};
use edamame_posture::textenc::{dec_string, parse_dec_str};

#[test]
fn policy_check_settles_on_a_clean_answer() {
    let none = "None".to_string();
    assert_eq!(policy_check_step(&none, true, false), RetryStep::Finished(EXIT_CODE_SUCCESS));
    assert_eq!(policy_check_step(&none, false, false), RetryStep::Finished(ERROR_CODE_MISMATCH));
}

#[test]
fn unknown_signature_retries_until_the_deadline() {
    let code = "InvalidSignature".to_string();
    assert_eq!(policy_check_step(&code, true, false), RetryStep::RetryAfterDelay);
    assert_eq!(policy_check_step(&code, true, true), RetryStep::Finished(ERROR_CODE_PARAM));
}

#[test]
fn unknown_policy_fails_at_once() {
    let code = "InvalidPolicy".to_string();
    assert_eq!(policy_check_step(&code, true, false), RetryStep::Finished(ERROR_CODE_PARAM));
}

#[test]
fn other_backend_errors_are_server_errors() {
    let code = "InternalError".to_string();
    assert_eq!(
        policy_check_step(&code, true, false),
        RetryStep::Finished(ERROR_CODE_SERVER_ERROR)
    );
}

#[test]
fn report_request_steps() {
    let none = "None".to_string();
    let bad_sig = "InvalidSignature".to_string();
    let other = "Backend5xx".to_string();
    assert_eq!(report_request_step(&none, false), RetryStep::Finished(EXIT_CODE_SUCCESS));
    assert_eq!(report_request_step(&bad_sig, false), RetryStep::RetryAfterDelay);
    assert_eq!(report_request_step(&other, false), RetryStep::RetryAfterDelay);
    assert_eq!(report_request_step(&bad_sig, true), RetryStep::Finished(ERROR_CODE_PARAM));
    assert_eq!(report_request_step(&other, true), RetryStep::Finished(ERROR_CODE_SERVER_ERROR));
}

#[test]
fn decimal_text_round_trips() {
    assert_eq!(dec_string(0), "0");
    assert_eq!(dec_string(600), "600");
    assert_eq!(dec_string(u64::MAX), u64::MAX.to_string());
    assert_eq!(parse_dec_str("600"), Some(600));
    assert_eq!(parse_dec_str("007"), Some(7));
    assert_eq!(parse_dec_str(""), None);
    assert_eq!(parse_dec_str("12x"), None);
    assert_eq!(parse_dec_str("99999999999999999999999"), None); // over u64
}
