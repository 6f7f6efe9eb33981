use ckb_std::ckb_types::packed;
use ckb_std::ckb_types::prelude::{Builder, Entity};
use my_sudt_info::context::{Context, Script, TypeScript};
use my_sudt_info::error::{exit_code, Error};
use my_sudt_info::pipeline::{verify, Config};

// errors
const INFO_TYPE_ARGS_NOT_MATCH: i8 = 5;
const OWNER_LOCK_SCRIPT_NOT_MATCH: i8 = 6;
const WRONG_DATA_STRUCT: i8 = 7;

const RECORD: &str = "060a55534420436f696e0a555344430a546f74616c737570706c793a31303030303030302e3030303030300a4f66666963616c20536974653a68747470733a2f2f7777772e63656e7472652e696f2f0a4465736372697074696f6e3a78787878";

fn script_hash(script: &Script) -> [u8; 32] {
    packed::Script::new_builder()
        .code_hash(script.code_hash)
        .hash_type(script.hash_type)
        .args(script.args.as_slice())
        .build()
        .calc_script_hash()
        .into()
}

fn typed(script: Script) -> TypeScript {
    TypeScript { hash: script_hash(&script), script }
}

fn build_test_context(
    sudt_type_args: Option<Vec<u8>>,
    sudt_info_type_args: Option<Vec<u8>>,
    sudt_info_data: Vec<u8>,
) -> Context {
    // prepare scripts
    let lock_script = Script { code_hash: [0x11; 32], hash_type: 0, args: Vec::new() };
    let lock_hash = script_hash(&lock_script);
    let owner_lock_script_args = lock_hash.to_vec();
    let sudt_script = Script {
        code_hash: [0x22; 32],
        hash_type: 0,
        args: sudt_type_args.unwrap_or(owner_lock_script_args),
    };
    let sudt_script_hash_args = script_hash(&sudt_script).to_vec();
    let sudt_info_script = Script {
        code_hash: [0x33; 32],
        hash_type: 0,
        args: sudt_info_type_args.unwrap_or(sudt_script_hash_args),
    };

    // one input under the lock, two outputs: the token cell and the info cell
    Context {
        args: sudt_info_script.args.clone(),
        input_lock_hashes: vec![lock_hash],
        output_types: vec![Some(typed(sudt_script)), Some(typed(sudt_info_script))],
        payload: Some(sudt_info_data),
    }
}

#[test]
fn test_verify_succeed() {
    let ctx = build_test_context(None, None, hex::decode(RECORD).unwrap());
    verify(&Config::complete(), &ctx).expect("pass verification");
}

#[test]
fn test_sudt_info_type_args_not_equal_sudt_type_hash() {
    let wrong_sudt_info_type_args = b"Hello world".to_vec();
    let ctx = build_test_context(
        None,
        Some(wrong_sudt_info_type_args),
        hex::decode(RECORD).unwrap(),
    );

    // run
    let err = verify(&Config::complete(), &ctx).unwrap_err();
    assert_eq!(err, Error::InfoTypeArgsNotMatch);
    assert_eq!(exit_code(&Err(err)), INFO_TYPE_ARGS_NOT_MATCH);
}

#[test]
fn test_input_lock_hash_not_include_sudt_type_args() {
    let wrong_sudt_type_args = b"Hello world".to_vec();
    let ctx = build_test_context(Some(wrong_sudt_type_args), None, hex::decode(RECORD).unwrap());

    // run
    let err = verify(&Config::complete(), &ctx).unwrap_err();
    assert_eq!(err, Error::OwnerLockScriptNotMatch);
    assert_eq!(exit_code(&Err(err)), OWNER_LOCK_SCRIPT_NOT_MATCH);
}

#[test]
fn test_data_is_null() {
    let ctx = build_test_context(None, None, hex::decode("").unwrap());

    // run
    let err = verify(&Config::complete(), &ctx).unwrap_err();
    assert_eq!(err, Error::WrongDataStruct);
    assert_eq!(exit_code(&Err(err)), WRONG_DATA_STRUCT);
}

#[test]
fn test_data_len_less_than_three() {
    let ctx = build_test_context(None, None, hex::decode("060a55534420436f696e").unwrap());

    let err = verify(&Config::complete(), &ctx).unwrap_err();
    assert_eq!(err, Error::WrongDataStruct);
    assert_eq!(exit_code(&Err(err)), WRONG_DATA_STRUCT);
}

#[test]
fn test_data_decimal_not_a_byte() {
    let ctx = build_test_context(
        None,
        None,
        hex::decode("55534420436f696e0a55534420436f696e0a555344430a546f74616c737570706c793a31303030303030302e3030303030300a4f66666963616c20536974653a68747470733a2f2f7777772e63656e7472652e696f2f0a4465736372697074696f6e3a78787878").unwrap(),
    );

    // run
    let err = verify(&Config::complete(), &ctx).unwrap_err();
    assert_eq!(err, Error::WrongDataStruct);
    assert_eq!(exit_code(&Err(err)), WRONG_DATA_STRUCT);
}

#[test]
fn both_companion_strategies_accept_a_faithful_ledger() {
    let ctx = build_test_context(None, None, hex::decode(RECORD).unwrap());
    assert_eq!(verify(&Config::type_hash(), &ctx), Ok(()));
    assert_eq!(verify(&Config::descriptor_hash(), &ctx), Ok(()));

    let ctx = build_test_context(Some(b"Hello world".to_vec()), None, hex::decode(RECORD).unwrap());
    assert_eq!(verify(&Config::type_hash(), &ctx), Err(Error::OwnerLockScriptNotMatch));
    assert_eq!(verify(&Config::descriptor_hash(), &ctx), Err(Error::OwnerLockScriptNotMatch));

    let ctx = build_test_context(None, Some(b"Hello world".to_vec()), hex::decode(RECORD).unwrap());
    assert_eq!(verify(&Config::type_hash(), &ctx), Err(Error::InfoTypeArgsNotMatch));
    assert_eq!(verify(&Config::descriptor_hash(), &ctx), Err(Error::IndexOutOfBound));
}
