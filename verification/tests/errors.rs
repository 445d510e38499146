use edamame_posture::errors::{
    exit_code, PostureError, ERROR_CODE_MISMATCH, ERROR_CODE_PARAM, ERROR_CODE_SERVER_ERROR,
    ERROR_CODE_TIMEOUT, EXIT_CODE_SUCCESS,
};

#[test]
fn exit_codes_are_bit_exact_for_ci() {
    assert_eq!(EXIT_CODE_SUCCESS, 0);
    assert_eq!(ERROR_CODE_MISMATCH, 1);
    assert_eq!(ERROR_CODE_SERVER_ERROR, 2);
    assert_eq!(ERROR_CODE_PARAM, 3);
    assert_eq!(ERROR_CODE_TIMEOUT, 4);
    assert_eq!(exit_code(PostureError::Mismatch), 1);
    assert_eq!(exit_code(PostureError::ServerError), 2);
    assert_eq!(exit_code(PostureError::ParamError), 3);
    assert_eq!(exit_code(PostureError::TimeoutError), 4);
    assert_eq!(exit_code(PostureError::AlreadyRunning), 1);
    assert_eq!(exit_code(PostureError::SpawnError), 1);
}

#[test]
fn every_error_exits_nonzero() {
    let all = [
        PostureError::Mismatch,
        PostureError::ServerError,
        PostureError::ParamError,
        PostureError::TimeoutError,
        PostureError::AlreadyRunning,
        PostureError::SpawnError,
    ];
    for e in all {
        assert_ne!(exit_code(e), EXIT_CODE_SUCCESS);
    }
}
